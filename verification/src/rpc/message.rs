//! The webwire protocol messages: their text format, parsing and
//! serialisation.
//!
//! A frame starts with a message code and a space:
//!
//! - `0 <last_message_id>`: heartbeat
//! - `1 <message_id> <service>.<method>[ <data>]`: notification
//! - `2 <message_id> <service>.<method>[ <data>]`: request
//! - `3 <message_id> <request_message_id>[ <data>]`: response
//! - `4 <message_id> <request_message_id>[ <error>]`: error response
//! - `-1`: disconnect

use vstd::prelude::*;
use vstd::utf8::*;
use vstd::string::*;
use bytes::Bytes;

use crate::buffer::{bytes_as_slice, bytes_from_vec, bytes_new, bytes_slice_from, bytes_view};
use crate::text::{
    append_bytes, ascii_char, bytes_equal, decimal, digit_run, digits_value, is_digit,
    lemma_decimal, lemma_encode_ascii, lemma_encode_join, lemma_pow10_16, lemma_split_last_join,
    pow10, push_decimal, scan_digits, split_last, split_last_ascii,
    str_from_utf8, DOT, MINUS, SPACE,
};

verus! {

/// 2^53-1 is the maximum valid message_id as this is the highest integer
/// that can be represented in JavaScript.
pub const MAX_SAFE_INTEGER: u64 = 9007199254740991;

/// `b'0'`: the code of a heartbeat.
pub const HEARTBEAT_CODE: u8 = 0x30;
/// `b'1'`: the code of a notification, and the digit of the disconnect marker `-1`.
pub const NOTIFICATION_CODE: u8 = 0x31;
/// `b'2'`: the code of a request.
pub const REQUEST_CODE: u8 = 0x32;
/// `b'3'`: the code of a response.
pub const RESPONSE_CODE: u8 = 0x33;
/// `b'4'`: the code of an error response.
pub const ERROR_CODE: u8 = 0x34;

/// Longest message id, in digits, that the parser reads.
pub const MAX_NUMBER_DIGITS: usize = 16;

/// Longest `service.method` name, in bytes, that the parser reads.
pub const MAX_NAME_BYTES: usize = 255;

#[verifier::external_type_specification]
#[verifier::external_body]
pub struct ExParseIntError(std::num::ParseIntError);

/// This error is returned when parsing fails
pub enum ParseError {
    /// A std::num::ParseIntError occured
    ParseIntError(std::num::ParseIntError),
    /// The maximum value of 9007199254740991 (2^53-1) was exceeded
    /// while trying to parse a number.
    MaxValueExceeded,
    /// The method did not contain at least two identifiers
    /// so a service and method name could be extracted.
    InvalidServiceMethod,
}

/// A parsed message
#[derive(Debug, Eq, PartialEq)]
pub enum Message {
    /// Heartbeat
    Heartbeat(Heartbeat),
    /// Request or Notification
    Request(Request),
    /// Response or error response
    Response(Response),
    /// Disconnect
    Disconnect,
}

/// A parsed heartbeat message
#[derive(Debug, Eq, PartialEq)]
pub struct Heartbeat {
    /// The ID of the last received message
    pub last_message_id: u64,
}

/// A parsed request message or notification
#[derive(Debug, Eq, PartialEq)]
pub struct Request {
    /// This boolean is set if that request is actually a
    /// notification.
    pub is_notification: bool,
    /// The ID of this message
    pub message_id: u64,
    /// The service name this notification is trying to call
    pub service: String,
    /// The method name this notification is trying to call
    pub method: String,
    /// The message payload
    pub data: Bytes,
}

/// A parsed response message
#[derive(Debug, Eq, PartialEq)]
pub struct Response {
    /// The ID of this message
    pub message_id: u64,
    /// The message ID of the request this response belongs to.
    pub request_message_id: u64,
    /// The message payload
    pub data: Result<Bytes, ErrorKind>,
}

/// A parsed error response
#[derive(Debug, Eq, PartialEq)]
pub enum ErrorKind {
    /// This error is returned if the target service was not found.
    ServiceNotFound,
    /// This error is returned if the target method was not found.
    MethodNotFound,
    /// This is similar to an "HTTP 500 - Internal Server Error" except that
    /// both client and server can actually respond with it to a request.
    ProviderError,
    /// The remote side responded with an unknown error.
    Other(Bytes),
}

/* The mathematical model of the messages */

/// An error response's kind, with its payload as bytes.
pub enum ErrorKindModel {
    ServiceNotFound,
    MethodNotFound,
    ProviderError,
    Other(Seq<u8>),
}

/// A request or notification, with names as text and payload as bytes.
pub struct RequestModel {
    pub is_notification: bool,
    pub message_id: u64,
    pub service: Seq<char>,
    pub method: Seq<char>,
    pub data: Seq<u8>,
}

/// A response or error response, with payload as bytes.
pub struct ResponseModel {
    pub message_id: u64,
    pub request_message_id: u64,
    pub data: Result<Seq<u8>, ErrorKindModel>,
}

/// A message as the protocol sees it.
pub enum MessageModel {
    Heartbeat(u64),
    Request(RequestModel),
    Response(ResponseModel),
    Disconnect,
}

impl View for ErrorKind {
    type V = ErrorKindModel;

    open spec fn view(&self) -> ErrorKindModel {
        match self {
            ErrorKind::ServiceNotFound => ErrorKindModel::ServiceNotFound,
            ErrorKind::MethodNotFound => ErrorKindModel::MethodNotFound,
            ErrorKind::ProviderError => ErrorKindModel::ProviderError,
            ErrorKind::Other(data) => ErrorKindModel::Other(bytes_view(*data)),
        }
    }
}

impl View for Request {
    type V = RequestModel;

    open spec fn view(&self) -> RequestModel {
        RequestModel {
            is_notification: self.is_notification,
            message_id: self.message_id,
            service: self.service@,
            method: self.method@,
            data: bytes_view(self.data),
        }
    }
}

impl View for Response {
    type V = ResponseModel;

    open spec fn view(&self) -> ResponseModel {
        ResponseModel {
            message_id: self.message_id,
            request_message_id: self.request_message_id,
            data: match self.data {
                Ok(data) => Ok(bytes_view(data)),
                Err(kind) => Err(kind@),
            },
        }
    }
}

impl View for Message {
    type V = MessageModel;

    open spec fn view(&self) -> MessageModel {
        match self {
            Message::Heartbeat(h) => MessageModel::Heartbeat(h.last_message_id),
            Message::Request(r) => MessageModel::Request(r@),
            Message::Response(r) => MessageModel::Response(r@),
            Message::Disconnect => MessageModel::Disconnect,
        }
    }
}

/* The frame grammar */

/// `b"ServiceNotFound"`
pub open spec fn service_not_found_text() -> Seq<u8> {
    seq![
        'S' as u8, 'e' as u8, 'r' as u8, 'v' as u8, 'i' as u8, 'c' as u8, 'e' as u8,
        'N' as u8, 'o' as u8, 't' as u8, 'F' as u8, 'o' as u8, 'u' as u8, 'n' as u8, 'd' as u8,
    ]
}

/// `b"MethodNotFound"`
pub open spec fn method_not_found_text() -> Seq<u8> {
    seq![
        'M' as u8, 'e' as u8, 't' as u8, 'h' as u8, 'o' as u8, 'd' as u8,
        'N' as u8, 'o' as u8, 't' as u8, 'F' as u8, 'o' as u8, 'u' as u8, 'n' as u8, 'd' as u8,
    ]
}

/// Whether `s` starts with the two bytes `a` and `b`.
pub open spec fn starts_with(s: Seq<u8>, a: u8, b: u8) -> bool {
    s.len() >= 2 && s[0] == a && s[1] == b
}

/// Whether the byte at `pos` is `b`.
pub open spec fn byte_is(s: Seq<u8>, pos: int, b: u8) -> bool {
    0 <= pos < s.len() && s[pos] == b
}

/// The number of bytes other than a space at `start` in `s`, counting at
/// most `max`.
pub open spec fn name_run(s: Seq<u8>, start: int, max: nat) -> nat
    decreases max,
{
    if max == 0 || start < 0 || start >= s.len() || s[start] == SPACE {
        0
    } else {
        1 + name_run(s, start + 1, (max - 1) as nat)
    }
}

/// A message id at `pos`: one to sixteen digits denoting at most
/// `MAX_SAFE_INTEGER`; yields the position after the digits and the id.
pub open spec fn number_at(s: Seq<u8>, pos: int) -> Option<(int, u64)> {
    let n = digit_run(s, pos, MAX_NUMBER_DIGITS as nat);
    let value = digits_value(s.subrange(pos, pos + n));
    if n == 0 || value > MAX_SAFE_INTEGER {
        None
    } else {
        Some((pos + n, value as u64))
    }
}

/// A `service.method` name at `pos`: one to 255 bytes other than a space,
/// valid UTF-8, split at the last `.`; yields the position after the
/// name, the service and the method.
pub open spec fn service_method_at(s: Seq<u8>, pos: int) -> Option<(int, Seq<char>, Seq<char>)> {
    let n = name_run(s, pos, MAX_NAME_BYTES as nat);
    let name = s.subrange(pos, pos + n);
    if n == 0 || !valid_utf8(name) {
        None
    } else {
        match split_last(decode_utf8(name), '.') {
            Some((service, method)) => Some((pos + n, service, method)),
            None => None,
        }
    }
}

/// The payload after position `pos`: what follows a space there, or
/// nothing.
pub open spec fn data_after(s: Seq<u8>, pos: int) -> Seq<u8> {
    if byte_is(s, pos, SPACE) {
        s.subrange(pos + 1, s.len() as int)
    } else {
        Seq::empty()
    }
}

/// The kind of error that an error response's payload names.
pub open spec fn error_kind_of(data: Seq<u8>) -> ErrorKindModel {
    if data == service_not_found_text() {
        ErrorKindModel::ServiceNotFound
    } else if data == method_not_found_text() {
        ErrorKindModel::MethodNotFound
    } else if data.len() == 0 {
        ErrorKindModel::ProviderError
    } else {
        ErrorKindModel::Other(data)
    }
}

/// The body of a notification (`1 `) or request (`2 `) frame.
pub open spec fn request_body(s: Seq<u8>, is_notification: bool) -> Option<RequestModel> {
    match number_at(s, 2) {
        Some((p, message_id)) => if byte_is(s, p, SPACE) {
            match service_method_at(s, p + 1) {
                Some((q, service, method)) => Some(
                    RequestModel { is_notification, message_id, service, method, data: data_after(s, q) },
                ),
                None => None,
            }
        } else {
            None
        },
        None => None,
    }
}

/// The two message ids of a response (`3 `) or error (`4 `) frame, and the
/// position after them.
pub open spec fn response_ids(s: Seq<u8>) -> Option<(int, u64, u64)> {
    match number_at(s, 2) {
        Some((p, message_id)) => if byte_is(s, p, SPACE) {
            match number_at(s, p + 1) {
                Some((q, request_message_id)) => Some((q, message_id, request_message_id)),
                None => None,
            }
        } else {
            None
        },
        None => None,
    }
}

/// The body of a response (`3 `) frame.
pub open spec fn response_body(s: Seq<u8>) -> Option<ResponseModel> {
    match response_ids(s) {
        Some((q, message_id, request_message_id)) => Some(
            ResponseModel { message_id, request_message_id, data: Ok(data_after(s, q)) },
        ),
        None => None,
    }
}

/// The body of an error response (`4 `) frame.
pub open spec fn error_body(s: Seq<u8>) -> Option<ResponseModel> {
    match response_ids(s) {
        Some((q, message_id, request_message_id)) => Some(
            ResponseModel {
                message_id,
                request_message_id,
                data: Err(
                    if byte_is(s, q, SPACE) {
                        error_kind_of(s.subrange(q + 1, s.len() as int))
                    } else {
                        ErrorKindModel::ProviderError
                    },
                ),
            },
        ),
        None => None,
    }
}

/// The message that a frame holds, if any. Bytes after a complete
/// heartbeat, response id or disconnect marker are ignored.
pub open spec fn parse_frame(s: Seq<u8>) -> Option<MessageModel> {
    if starts_with(s, HEARTBEAT_CODE, SPACE) {
        match number_at(s, 2) {
            Some((_, id)) => Some(MessageModel::Heartbeat(id)),
            None => None,
        }
    } else if starts_with(s, NOTIFICATION_CODE, SPACE) {
        match request_body(s, true) {
            Some(r) => Some(MessageModel::Request(r)),
            None => None,
        }
    } else if starts_with(s, REQUEST_CODE, SPACE) {
        match request_body(s, false) {
            Some(r) => Some(MessageModel::Request(r)),
            None => None,
        }
    } else if starts_with(s, RESPONSE_CODE, SPACE) {
        match response_body(s) {
            Some(r) => Some(MessageModel::Response(r)),
            None => None,
        }
    } else if starts_with(s, ERROR_CODE, SPACE) {
        match error_body(s) {
            Some(r) => Some(MessageModel::Response(r)),
            None => None,
        }
    } else if starts_with(s, MINUS, NOTIFICATION_CODE) {
        Some(MessageModel::Disconnect)
    } else {
        None
    }
}

/* Serialisation */

/// A payload as it follows the header: nothing when empty, else a space
/// and the payload.
pub open spec fn payload_suffix(data: Seq<u8>) -> Seq<u8> {
    if data.len() == 0 {
        Seq::empty()
    } else {
        seq![SPACE] + data
    }
}

/// `0 <last_message_id>`
pub open spec fn heartbeat_frame(last_message_id: u64) -> Seq<u8> {
    seq![HEARTBEAT_CODE, SPACE] + decimal(last_message_id as nat)
}

/// The `service.method` name of a request, as UTF-8.
pub open spec fn name_bytes(service: Seq<char>, method: Seq<char>) -> Seq<u8> {
    encode_utf8(service) + seq![DOT] + encode_utf8(method)
}

/// `1 <message_id> <service>.<method>[ <data>]` for a notification,
/// `2 ...` for a request.
pub open spec fn request_frame(r: RequestModel) -> Seq<u8> {
    let code = if r.is_notification {
        NOTIFICATION_CODE
    } else {
        REQUEST_CODE
    };
    seq![code, SPACE] + decimal(r.message_id as nat) + seq![SPACE] + name_bytes(r.service, r.method)
        + payload_suffix(r.data)
}

/// The payload that an error response carries for each kind of error.
pub open spec fn error_kind_text(kind: ErrorKindModel) -> Seq<u8> {
    match kind {
        ErrorKindModel::ServiceNotFound => service_not_found_text(),
        ErrorKindModel::MethodNotFound => method_not_found_text(),
        ErrorKindModel::ProviderError => Seq::empty(),
        ErrorKindModel::Other(data) => data,
    }
}

/// `3 <message_id> <request_message_id>[ <data>]` for a response,
/// `4 <message_id> <request_message_id>[ <error>]` for an error response.
pub open spec fn response_frame(r: ResponseModel) -> Seq<u8> {
    let (code, data) = match r.data {
        Ok(data) => (RESPONSE_CODE, data),
        Err(kind) => (ERROR_CODE, error_kind_text(kind)),
    };
    seq![code, SPACE] + decimal(r.message_id as nat) + seq![SPACE] + decimal(
        r.request_message_id as nat,
    ) + payload_suffix(data)
}

fn push_payload(v: &mut Vec<u8>, data: &[u8])
    ensures
        final(v)@ == old(v)@ + payload_suffix(data@),
{
    if data.len() > 0 {
        v.push(SPACE);
        append_bytes(v, data);
        assert(final(v)@ =~= old(v)@ + payload_suffix(data@));
    } else {
        assert(final(v)@ =~= old(v)@ + payload_suffix(data@));
    }
}

fn error_kind_bytes(kind: &ErrorKind) -> (r: Vec<u8>)
    ensures
        r@ == error_kind_text(kind@),
{
    match kind {
        ErrorKind::ServiceNotFound => service_not_found_bytes(),
        ErrorKind::MethodNotFound => method_not_found_bytes(),
        ErrorKind::ProviderError => Vec::new(),
        ErrorKind::Other(data) => crate::text::bytes_to_vec(bytes_as_slice(data)),
    }
}

impl Heartbeat {
    /// Serialize this heartbeat into `Bytes`
    pub fn to_bytes(&self) -> (r: Bytes)
        ensures
            bytes_view(r) == heartbeat_frame(self.last_message_id),
    {
        let mut v: Vec<u8> = Vec::new();
        v.push(HEARTBEAT_CODE);
        v.push(SPACE);
        push_decimal(&mut v, self.last_message_id);
        assert(v@ =~= heartbeat_frame(self.last_message_id));
        bytes_from_vec(v)
    }
}

impl Request {
    /// Serialize this request into `Bytes`
    pub fn to_bytes(&self) -> (r: Bytes)
        ensures
            bytes_view(r) == request_frame(self@),
    {
        let code = if self.is_notification {
            NOTIFICATION_CODE
        } else {
            REQUEST_CODE
        };
        let mut v: Vec<u8> = Vec::new();
        v.push(code);
        v.push(SPACE);
        push_decimal(&mut v, self.message_id);
        v.push(SPACE);
        append_bytes(&mut v, self.service.as_str().as_bytes());
        v.push(DOT);
        append_bytes(&mut v, self.method.as_str().as_bytes());
        push_payload(&mut v, bytes_as_slice(&self.data));
        assert(v@ =~= request_frame(self@));
        bytes_from_vec(v)
    }
}

impl Response {
    /// Serialzie this response into `Bytes`
    pub fn to_bytes(&self) -> (r: Bytes)
        ensures
            bytes_view(r) == response_frame(self@),
    {
        let mut v: Vec<u8> = Vec::new();
        let code = if self.data.is_ok() {
            RESPONSE_CODE
        } else {
            ERROR_CODE
        };
        v.push(code);
        v.push(SPACE);
        push_decimal(&mut v, self.message_id);
        v.push(SPACE);
        push_decimal(&mut v, self.request_message_id);
        match &self.data {
            Ok(data) => push_payload(&mut v, bytes_as_slice(data)),
            Err(kind) => {
                let text = error_kind_bytes(kind);
                push_payload(&mut v, text.as_slice());
            },
        }
        assert(v@ =~= response_frame(self@));
        bytes_from_vec(v)
    }
}

/* Parsing */

fn service_not_found_bytes() -> (r: Vec<u8>)
    ensures
        r@ == service_not_found_text(),
{
    vec![
        'S' as u8, 'e' as u8, 'r' as u8, 'v' as u8, 'i' as u8, 'c' as u8, 'e' as u8,
        'N' as u8, 'o' as u8, 't' as u8, 'F' as u8, 'o' as u8, 'u' as u8, 'n' as u8, 'd' as u8,
    ]
}

fn method_not_found_bytes() -> (r: Vec<u8>)
    ensures
        r@ == method_not_found_text(),
{
    vec![
        'M' as u8, 'e' as u8, 't' as u8, 'h' as u8, 'o' as u8, 'd' as u8,
        'N' as u8, 'o' as u8, 't' as u8, 'F' as u8, 'o' as u8, 'u' as u8, 'n' as u8, 'd' as u8,
    ]
}

/// A message id at `pos`, as `number_at` states it.
fn parse_number(s: &[u8], pos: usize) -> (r: Option<(usize, u64)>)
    requires
        pos <= s@.len(),
    ensures
        match r {
            Some((end, id)) => number_at(s@, pos as int) == Some((end as int, id)) && end <= s@.len(),
            None => number_at(s@, pos as int) is None,
        },
{
    let (end, value) = scan_digits(s, pos, MAX_NUMBER_DIGITS);
    if end == pos || value > MAX_SAFE_INTEGER {
        None
    } else {
        Some((end, value))
    }
}

/// The number of bytes other than a space at `pos`, at most 255.
fn scan_name(s: &[u8], pos: usize) -> (end: usize)
    requires
        pos <= s@.len(),
    ensures
        end == pos + name_run(s@, pos as int, MAX_NAME_BYTES as nat),
        end <= s@.len(),
{
    let mut i: usize = pos;
    while i < s.len() && i - pos < MAX_NAME_BYTES && s[i] != SPACE
        invariant
            pos <= i <= s@.len(),
            i - pos <= MAX_NAME_BYTES,
            name_run(s@, pos as int, MAX_NAME_BYTES as nat) == (i - pos) + name_run(
                s@,
                i as int,
                (MAX_NAME_BYTES - (i - pos)) as nat,
            ),
        decreases s.len() - i,
    {
        i = i + 1;
    }
    i
}

/// A `service.method` name at `pos`, as `service_method_at` states it.
fn parse_service_method(s: &[u8], pos: usize) -> (r: Option<(usize, String, String)>)
    requires
        pos <= s@.len(),
    ensures
        match r {
            Some((end, service, method)) => service_method_at(s@, pos as int) == Some(
                (end as int, service@, method@),
            ) && end <= s@.len(),
            None => service_method_at(s@, pos as int) is None,
        },
{
    let end = scan_name(s, pos);
    if end == pos {
        return None;
    }
    let name = &s[pos..end];
    proof {
        assert(ascii_char(DOT) == '.');
    }
    match str_from_utf8(name) {
        None => None,
        Some(text) => match split_last_ascii(text, DOT) {
            Some((service, method)) => Some((end, service, method)),
            None => None,
        },
    }
}

/// The payload after `pos`, as `data_after` states it.
fn parse_data(input: &Bytes, s: &[u8], pos: usize) -> (r: Bytes)
    requires
        s@ == bytes_view(*input),
        pos <= s@.len(),
    ensures
        bytes_view(r) == data_after(s@, pos as int),
{
    if pos < s.len() && s[pos] == SPACE {
        bytes_slice_from(input, pos + 1)
    } else {
        bytes_new()
    }
}

/// The body of a notification or request frame.
fn parse_request(input: &Bytes, s: &[u8], is_notification: bool) -> (r: Option<Request>)
    requires
        s@ == bytes_view(*input),
        s@.len() >= 2,
    ensures
        match r {
            Some(req) => request_body(s@, is_notification) == Some(req@),
            None => request_body(s@, is_notification) is None,
        },
{
    let (p, message_id) = match parse_number(s, 2) {
        Some(v) => v,
        None => return None,
    };
    if !(p < s.len() && s[p] == SPACE) {
        return None;
    }
    let (q, service, method) = match parse_service_method(s, p + 1) {
        Some(v) => v,
        None => return None,
    };
    let data = parse_data(input, s, q);
    Some(Request { is_notification, message_id, service, method, data })
}

/// The two ids of a response or error frame.
fn parse_response_ids(s: &[u8]) -> (r: Option<(usize, u64, u64)>)
    requires
        s@.len() >= 2,
    ensures
        match r {
            Some((q, a, b)) => response_ids(s@) == Some((q as int, a, b)) && q <= s@.len(),
            None => response_ids(s@) is None,
        },
{
    let (p, message_id) = match parse_number(s, 2) {
        Some(v) => v,
        None => return None,
    };
    if !(p < s.len() && s[p] == SPACE) {
        return None;
    }
    let (q, request_message_id) = match parse_number(s, p + 1) {
        Some(v) => v,
        None => return None,
    };
    proof {
        assert(q <= s@.len());
    }
    Some((q, message_id, request_message_id))
}

/// The kind of error that a payload names, as `error_kind_of` states it.
fn parse_error_kind(input: &Bytes, s: &[u8], pos: usize) -> (r: ErrorKind)
    requires
        s@ == bytes_view(*input),
        pos <= s@.len(),
    ensures
        r@ == error_kind_of(s@.subrange(pos as int, s@.len() as int)),
{
    let rest = &s[pos..s.len()];
    let snf = service_not_found_bytes();
    let mnf = method_not_found_bytes();
    if bytes_equal(rest, snf.as_slice()) {
        ErrorKind::ServiceNotFound
    } else if bytes_equal(rest, mnf.as_slice()) {
        ErrorKind::MethodNotFound
    } else if rest.len() == 0 {
        ErrorKind::ProviderError
    } else {
        ErrorKind::Other(bytes_slice_from(input, pos))
    }
}

impl Message {
    /// Parse the given input buffer into a Message object.
    pub fn parse(input: &Bytes) -> (r: Option<Self>)
        ensures
            match r {
                Some(m) => parse_frame(bytes_view(*input)) == Some(m@),
                None => parse_frame(bytes_view(*input)) is None,
            },
    {
        let s = bytes_as_slice(input);
        if s.len() < 2 {
            return None;
        }
        let (a, b) = (s[0], s[1]);
        if a == HEARTBEAT_CODE && b == SPACE {
            match parse_number(s, 2) {
                Some((_, id)) => Some(Message::Heartbeat(Heartbeat { last_message_id: id })),
                None => None,
            }
        } else if a == NOTIFICATION_CODE && b == SPACE {
            match parse_request(input, s, true) {
                Some(r) => Some(Message::Request(r)),
                None => None,
            }
        } else if a == REQUEST_CODE && b == SPACE {
            match parse_request(input, s, false) {
                Some(r) => Some(Message::Request(r)),
                None => None,
            }
        } else if a == RESPONSE_CODE && b == SPACE {
            match parse_response_ids(s) {
                Some((q, message_id, request_message_id)) => {
                    let data = parse_data(input, s, q);
                    Some(Message::Response(Response { message_id, request_message_id, data: Ok(data) }))
                },
                None => None,
            }
        } else if a == ERROR_CODE && b == SPACE {
            match parse_response_ids(s) {
                Some((q, message_id, request_message_id)) => {
                    let kind = if q < s.len() && s[q] == SPACE {
                        parse_error_kind(input, s, q + 1)
                    } else {
                        ErrorKind::ProviderError
                    };
                    Some(Message::Response(Response { message_id, request_message_id, data: Err(kind) }))
                },
                None => None,
            }
        } else if a == MINUS && b == NOTIFICATION_CODE {
            Some(Message::Disconnect)
        } else {
            None
        }
    }
}

/* Laws */

/// The ids in a message are at most `MAX_SAFE_INTEGER`.
pub open spec fn ids_are_safe(m: MessageModel) -> bool {
    match m {
        MessageModel::Heartbeat(id) => id <= MAX_SAFE_INTEGER,
        MessageModel::Request(r) => r.message_id <= MAX_SAFE_INTEGER,
        MessageModel::Response(r) => r.message_id <= MAX_SAFE_INTEGER && r.request_message_id
            <= MAX_SAFE_INTEGER,
        MessageModel::Disconnect => true,
    }
}

/// Every id that a parsed message carries is at most 2^53-1, the largest
/// integer that JavaScript represents exactly.
pub proof fn law_parsed_ids_are_safe(s: Seq<u8>)
    ensures
        parse_frame(s) matches Some(m) ==> ids_are_safe(m),
{
}

proof fn lemma_digit_run_exact(s: Seq<u8>, pos: int, len: int, max: nat)
    requires
        0 <= pos,
        0 <= len <= max,
        pos + len <= s.len(),
        forall|i: int| pos <= i < pos + len ==> is_digit(#[trigger] s[i]),
        len == max || pos + len == s.len() || !is_digit(s[pos + len]),
    ensures
        digit_run(s, pos, max) == len,
    decreases len,
{
    if len > 0 {
        lemma_digit_run_exact(s, pos + 1, len - 1, (max - 1) as nat);
    }
}

proof fn lemma_name_run_exact(s: Seq<u8>, pos: int, len: int, max: nat)
    requires
        0 <= pos,
        0 <= len <= max,
        pos + len <= s.len(),
        forall|i: int| pos <= i < pos + len ==> #[trigger] s[i] != SPACE,
        len == max || pos + len == s.len() || s[pos + len] == SPACE,
    ensures
        name_run(s, pos, max) == len,
    decreases len,
{
    if len > 0 {
        lemma_name_run_exact(s, pos + 1, len - 1, (max - 1) as nat);
    }
}

/// A safe id written in decimal at `pos`, followed by the end or by a
/// space, reads back as that id.
proof fn lemma_number_roundtrip(s: Seq<u8>, pos: int, id: u64)
    requires
        id <= MAX_SAFE_INTEGER,
        0 <= pos,
        pos + decimal(id as nat).len() <= s.len(),
        s.subrange(pos, pos + decimal(id as nat).len()) == decimal(id as nat),
        pos + decimal(id as nat).len() == s.len() || s[pos + decimal(id as nat).len()] == SPACE,
    ensures
        number_at(s, pos) == Some((pos + decimal(id as nat).len(), id)),
{
    let d = decimal(id as nat);
    lemma_decimal(id as nat);
    lemma_pow10_16();
    assert(id < pow10(16));
    assert forall|i: int| pos <= i < pos + d.len() implies is_digit(#[trigger] s[i]) by {
        assert(s[i] == s.subrange(pos, pos + d.len())[i - pos]);
    }
    lemma_digit_run_exact(s, pos, d.len() as int, MAX_NUMBER_DIGITS as nat);
}

/// A `service.method` name is the UTF-8 encoding of the text
/// `service + "." + method`.
proof fn lemma_name_bytes(service: Seq<char>, method: Seq<char>)
    ensures
        name_bytes(service, method) == encode_utf8(service + seq!['.'] + method),
{
    assert(ascii_char(DOT) == '.');
    lemma_encode_join(service, DOT, method);
}

/// The conditions under which a request's name reads back: neither part
/// holds a space, the method holds no dot, and the name fits in 255 bytes.
pub open spec fn name_fits(service: Seq<char>, method: Seq<char>) -> bool {
    &&& !service.contains(' ')
    &&& !method.contains(' ')
    &&& !method.contains('.')
    &&& name_bytes(service, method).len() <= MAX_NAME_BYTES
}

proof fn lemma_name_roundtrip(s: Seq<u8>, pos: int, service: Seq<char>, method: Seq<char>)
    requires
        name_fits(service, method),
        0 <= pos,
        pos + name_bytes(service, method).len() <= s.len(),
        s.subrange(pos, pos + name_bytes(service, method).len()) == name_bytes(service, method),
        pos + name_bytes(service, method).len() == s.len() || s[pos
            + name_bytes(service, method).len()] == SPACE,
    ensures
        service_method_at(s, pos) == Some((pos + name_bytes(service, method).len(), service, method)),
{
    let nm = name_bytes(service, method);
    let text = service + seq!['.'] + method;
    lemma_name_bytes(service, method);
    assert(ascii_char(SPACE) == ' ');
    assert(ascii_char(DOT) == '.');
    lemma_encode_ascii(text, SPACE);
    assert(!text.contains(' ')) by {
        if text.contains(' ') {
            let k = choose|k: int| 0 <= k < text.len() && text[k] == ' ';
            if k < service.len() {
                assert(service[k] == ' ');
            } else if k > service.len() {
                assert(method[k - service.len() - 1] == ' ');
            }
        }
    }
    assert forall|i: int| pos <= i < pos + nm.len() implies #[trigger] s[i] != SPACE by {
        assert(s[i] == nm[i - pos]);
        if nm[i - pos] == SPACE {
            assert(nm.contains(SPACE));
        }
    }
    lemma_name_run_exact(s, pos, nm.len() as int, MAX_NAME_BYTES as nat);
    assert(s.subrange(pos, pos + nm.len()) == nm);
    vstd::utf8::encode_utf8_valid_utf8(text);
    vstd::utf8::encode_utf8_decode_utf8(text);
    assert(decode_utf8(nm) == text);
    lemma_split_last_join(service, '.', method);
}

/// The payload written after the header reads back as the same payload.
proof fn lemma_payload_roundtrip(s: Seq<u8>, q: int, data: Seq<u8>)
    requires
        0 <= q <= s.len(),
        s.subrange(q, s.len() as int) == payload_suffix(data),
    ensures
        data_after(s, q) == data,
        q == s.len() || s[q] == SPACE,
{
    let t = s.subrange(q, s.len() as int);
    if data.len() > 0 {
        assert(t == seq![SPACE] + data);
        assert(t[0] == SPACE);
        assert(s[q] == t[0]);
        let u = s.subrange(q + 1, s.len() as int);
        assert forall|i: int| 0 <= i < data.len() implies u[i] == data[i] by {
            assert(u[i] == t[i + 1]);
            assert(t[i + 1] == data[i]);
        }
        assert(u =~= data);
    } else {
        assert(t.len() == 0);
    }
}

/// A heartbeat reads back as the heartbeat that was written, for ids up to
/// `MAX_SAFE_INTEGER`.
pub proof fn law_heartbeat_roundtrip(last_message_id: u64)
    requires
        last_message_id <= MAX_SAFE_INTEGER,
    ensures
        parse_frame(heartbeat_frame(last_message_id)) == Some(MessageModel::Heartbeat(last_message_id)),
{
    let s = heartbeat_frame(last_message_id);
    let d = decimal(last_message_id as nat);
    assert(s.subrange(2, 2 + d.len() as int) =~= d);
    lemma_number_roundtrip(s, 2, last_message_id);
}

/// A request or notification reads back as the one that was written, when
/// its id is at most `MAX_SAFE_INTEGER` and its name fits (`name_fits`).
pub proof fn law_request_roundtrip(r: RequestModel)
    requires
        r.message_id <= MAX_SAFE_INTEGER,
        name_fits(r.service, r.method),
    ensures
        parse_frame(request_frame(r)) == Some(MessageModel::Request(r)),
{
    let s = request_frame(r);
    let d = decimal(r.message_id as nat);
    let nm = name_bytes(r.service, r.method);
    let p: int = 2 + d.len() as int;
    let q: int = p + 1 + nm.len();
    assert(s.subrange(2, p) =~= d);
    assert(s[p] == SPACE);
    lemma_number_roundtrip(s, 2, r.message_id);
    assert(s.subrange(p + 1, q) =~= nm);
    assert(s.subrange(q, s.len() as int) =~= payload_suffix(r.data));
    lemma_payload_roundtrip(s, q, r.data);
    lemma_name_roundtrip(s, p + 1, r.service, r.method);
    let body = request_body(s, r.is_notification);
    assert(body == Some(r));
}

/// The two ids of a response frame read back.
proof fn lemma_response_ids_roundtrip(r: ResponseModel)
    requires
        r.message_id <= MAX_SAFE_INTEGER,
        r.request_message_id <= MAX_SAFE_INTEGER,
    ensures
        ({
            let s = response_frame(r);
            let q: int = 3 + decimal(r.message_id as nat).len() as int + decimal(r.request_message_id as nat).len() as int;
            &&& response_ids(s) == Some((q, r.message_id, r.request_message_id))
            &&& s.subrange(q, s.len() as int) == payload_suffix(
                match r.data {
                    Ok(data) => data,
                    Err(kind) => error_kind_text(kind),
                },
            )
        }),
{
    let s = response_frame(r);
    let d1 = decimal(r.message_id as nat);
    let d2 = decimal(r.request_message_id as nat);
    let data = match r.data {
        Ok(data) => data,
        Err(kind) => error_kind_text(kind),
    };
    let p: int = 2 + d1.len() as int;
    let q: int = p + 1 + d2.len();
    assert(s.subrange(2, p) =~= d1);
    assert(s[p] == SPACE);
    assert(s.subrange(p + 1, q) =~= d2);
    assert(s.subrange(q, s.len() as int) =~= payload_suffix(data));
    lemma_payload_roundtrip(s, q, data);
    lemma_number_roundtrip(s, 2, r.message_id);
    lemma_number_roundtrip(s, p + 1, r.request_message_id);
}

/// A response with a payload reads back as the response that was written,
/// for ids up to `MAX_SAFE_INTEGER`.
pub proof fn law_response_roundtrip(r: ResponseModel)
    requires
        r.message_id <= MAX_SAFE_INTEGER,
        r.request_message_id <= MAX_SAFE_INTEGER,
        r.data is Ok,
    ensures
        parse_frame(response_frame(r)) == Some(MessageModel::Response(r)),
{
    let s = response_frame(r);
    lemma_response_ids_roundtrip(r);
    let q: int = 3 + decimal(r.message_id as nat).len() as int + decimal(r.request_message_id as nat).len() as int;
    lemma_payload_roundtrip(s, q, r.data->Ok_0);
}

/// An error response reads back with the kind that its payload names
/// (`error_kind_of`), for ids up to `MAX_SAFE_INTEGER`.
pub proof fn law_error_reply(r: ResponseModel)
    requires
        r.message_id <= MAX_SAFE_INTEGER,
        r.request_message_id <= MAX_SAFE_INTEGER,
        r.data is Err,
    ensures
        parse_frame(response_frame(r)) == Some(
            MessageModel::Response(
                ResponseModel {
                    message_id: r.message_id,
                    request_message_id: r.request_message_id,
                    data: Err(error_kind_of(error_kind_text(r.data->Err_0))),
                },
            ),
        ),
{
    let s = response_frame(r);
    let text = error_kind_text(r.data->Err_0);
    lemma_response_ids_roundtrip(r);
    let q: int = 3 + decimal(r.message_id as nat).len() as int + decimal(
        r.request_message_id as nat,
    ).len() as int;
    lemma_payload_roundtrip(s, q, text);
    if text.len() > 0 {
        assert(s.subrange(q + 1, s.len() as int) == text);
    } else {
        assert(service_not_found_text().len() == 15);
        assert(method_not_found_text().len() == 14);
        assert(error_kind_of(text) == ErrorKindModel::ProviderError);
    }
}

/// An error kind that an error response carries unchanged: any kind but a
/// payload that reads as another kind (empty, `ServiceNotFound`,
/// `MethodNotFound`).
pub open spec fn kind_is_distinct(kind: ErrorKindModel) -> bool {
    kind matches ErrorKindModel::Other(data) ==> data.len() != 0 && data
        != service_not_found_text() && data != method_not_found_text()
}

/// An error response reads back as the error response that was written,
/// for ids up to `MAX_SAFE_INTEGER` and a kind that `kind_is_distinct`.
pub proof fn law_error_roundtrip(r: ResponseModel)
    requires
        r.message_id <= MAX_SAFE_INTEGER,
        r.request_message_id <= MAX_SAFE_INTEGER,
        r.data is Err,
        kind_is_distinct(r.data->Err_0),
    ensures
        parse_frame(response_frame(r)) == Some(MessageModel::Response(r)),
{
    law_error_reply(r);
    assert(service_not_found_text().len() == 15);
    assert(method_not_found_text().len() == 14);
    assert(error_kind_of(error_kind_text(r.data->Err_0)) == r.data->Err_0);
}

} // verus!
