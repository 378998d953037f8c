use bytes::Bytes;
use webwire::rpc::message::{ErrorKind, Heartbeat, Message, Request, Response};

fn parse(s: &[u8]) -> Option<Message> {
    Message::parse(&Bytes::copy_from_slice(s))
}

#[test]
fn rejects_unknown_codes_and_short_frames() {
    assert_eq!(parse(b""), None);
    assert_eq!(parse(b"0"), None);
    assert_eq!(parse(b"5 1"), None);
    assert_eq!(parse(b"01"), None);
    assert_eq!(parse(b"-2"), None);
}

#[test]
fn heartbeat_ignores_trailing_bytes() {
    assert_eq!(
        parse(b"0 42abc"),
        Some(Message::Heartbeat(Heartbeat { last_message_id: 42 }))
    );
    assert_eq!(parse(b"-1 anything"), Some(Message::Disconnect));
}

#[test]
fn number_limits() {
    assert_eq!(
        parse(b"0 9007199254740991"),
        Some(Message::Heartbeat(Heartbeat { last_message_id: 9007199254740991 }))
    );
    assert_eq!(parse(b"0 9007199254740992"), None);
    assert_eq!(parse(b"0 "), None);
    assert_eq!(parse(b"0 x"), None);
    // at most sixteen digits are read; the seventeenth stays behind
    assert_eq!(
        parse(b"0 12345678901234567"),
        Some(Message::Heartbeat(Heartbeat { last_message_id: 1234567890123456 }))
    );
    // in a request the seventeenth digit stands where a space must be
    assert_eq!(parse(b"2 12345678901234567 a.b"), None);
    assert_eq!(
        parse(b"0 0007"),
        Some(Message::Heartbeat(Heartbeat { last_message_id: 7 }))
    );
}

#[test]
fn service_method_split_at_last_dot() {
    assert_eq!(
        parse(b"2 1 a.b.c"),
        Some(Message::Request(Request {
            is_notification: false,
            message_id: 1,
            service: "a.b".to_string(),
            method: "c".to_string(),
            data: Bytes::new(),
        }))
    );
    assert_eq!(
        parse(b"1 1 .x"),
        Some(Message::Request(Request {
            is_notification: true,
            message_id: 1,
            service: "".to_string(),
            method: "x".to_string(),
            data: Bytes::new(),
        }))
    );
    assert_eq!(parse(b"2 1 nodot"), None);
    assert_eq!(parse(b"2 1  a.b"), None);
    assert_eq!(parse(b"2 1"), None);
}

#[test]
fn service_method_must_be_utf8() {
    assert_eq!(parse(b"2 1 a\xff.b"), None);
    assert_eq!(
        parse("2 1 dienst.größe".as_bytes()),
        Some(Message::Request(Request {
            is_notification: false,
            message_id: 1,
            service: "dienst".to_string(),
            method: "größe".to_string(),
            data: Bytes::new(),
        }))
    );
}

#[test]
fn long_names_are_cut_at_255_bytes() {
    let mut frame = b"2 1 s.".to_vec();
    frame.extend(std::iter::repeat(b'm').take(253));
    frame.extend(b" data");
    let method: String = std::iter::repeat('m').take(253).collect();
    assert_eq!(
        parse(&frame),
        Some(Message::Request(Request {
            is_notification: false,
            message_id: 1,
            service: "s".to_string(),
            method,
            data: Bytes::from("data"),
        }))
    );
    let mut frame = b"2 1 s.".to_vec();
    frame.extend(std::iter::repeat(b'm').take(254));
    frame.extend(b" data");
    let method: String = std::iter::repeat('m').take(253).collect();
    // the name stops after 255 bytes, the next byte is no space: no payload
    assert_eq!(
        parse(&frame),
        Some(Message::Request(Request {
            is_notification: false,
            message_id: 1,
            service: "s".to_string(),
            method,
            data: Bytes::new(),
        }))
    );
}

#[test]
fn payload_after_trailing_space() {
    assert_eq!(
        parse(b"3 1 2 "),
        Some(Message::Response(Response {
            message_id: 1,
            request_message_id: 2,
            data: Ok(Bytes::new()),
        }))
    );
    assert_eq!(
        parse(b"4 1 2 "),
        Some(Message::Response(Response {
            message_id: 1,
            request_message_id: 2,
            data: Err(ErrorKind::ProviderError),
        }))
    );
    assert_eq!(
        parse(b"3 1 2x"),
        Some(Message::Response(Response {
            message_id: 1,
            request_message_id: 2,
            data: Ok(Bytes::new()),
        }))
    );
    assert_eq!(parse(b"3 1"), None);
    assert_eq!(parse(b"3 1 x"), None);
}

#[test]
fn heartbeat_to_bytes() {
    assert_eq!(Heartbeat { last_message_id: 0 }.to_bytes(), Bytes::from("0 0"));
    assert_eq!(Heartbeat { last_message_id: 1234 }.to_bytes(), Bytes::from("0 1234"));
}

#[test]
fn request_to_bytes() {
    let r = Request {
        is_notification: false,
        message_id: 1,
        service: "Test".to_string(),
        method: "get_answer".to_string(),
        data: Bytes::new(),
    };
    assert_eq!(r.to_bytes(), Bytes::from("2 1 Test.get_answer"));
    let n = Request {
        is_notification: true,
        message_id: 17,
        service: "chat".to_string(),
        method: "send".to_string(),
        data: Bytes::from("\"hi\""),
    };
    assert_eq!(n.to_bytes(), Bytes::from("1 17 chat.send \"hi\""));
}

#[test]
fn response_to_bytes() {
    let cases = vec![
        (Ok(Bytes::from("42")), "3 1 1 42"),
        (Ok(Bytes::new()), "3 1 1"),
        (Err(ErrorKind::ServiceNotFound), "4 1 1 ServiceNotFound"),
        (Err(ErrorKind::MethodNotFound), "4 1 1 MethodNotFound"),
        (Err(ErrorKind::ProviderError), "4 1 1"),
        (Err(ErrorKind::Other(Bytes::from("boom"))), "4 1 1 boom"),
    ];
    for (data, expected) in cases {
        let r = Response { message_id: 1, request_message_id: 1, data };
        assert_eq!(r.to_bytes(), Bytes::from(expected));
    }
}

#[test]
fn frames_read_back() {
    let h = Heartbeat { last_message_id: 9007199254740991 };
    assert_eq!(
        Message::parse(&h.to_bytes()),
        Some(Message::Heartbeat(Heartbeat { last_message_id: 9007199254740991 }))
    );
    let r = Request {
        is_notification: true,
        message_id: 99,
        service: "a.b".to_string(),
        method: "c".to_string(),
        data: Bytes::from("x y z"),
    };
    let frame = r.to_bytes();
    assert_eq!(Message::parse(&frame), Some(Message::Request(r)));
    let e = Response {
        message_id: 3,
        request_message_id: 2,
        data: Err(ErrorKind::Other(Bytes::from("Teapot"))),
    };
    let frame = e.to_bytes();
    assert_eq!(Message::parse(&frame), Some(Message::Response(e)));
}

#[test]
fn other_error_named_like_a_kind_reads_as_that_kind() {
    let e = Response {
        message_id: 3,
        request_message_id: 2,
        data: Err(ErrorKind::Other(Bytes::from("ServiceNotFound"))),
    };
    assert_eq!(
        Message::parse(&e.to_bytes()),
        Some(Message::Response(Response {
            message_id: 3,
            request_message_id: 2,
            data: Err(ErrorKind::ServiceNotFound),
        }))
    );
}
