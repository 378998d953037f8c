use webwire::server::hyper::{auth_rejection, invalid_header_rejection, request_credentials, upgrade_failed_rejection};
use webwire::server::session::{Auth, AuthError, DefaultSessionHandler};

fn basic(a: Option<Auth>) -> (String, String) {
    match a {
        Some(Auth::Basic { username, password }) => (username, password),
        _ => panic!("not basic"),
    }
}

#[test]
fn parse_basic() {
    // "alice:secret"
    assert_eq!(
        basic(Auth::parse(b"Basic YWxpY2U6c2VjcmV0")),
        ("alice".to_string(), "secret".to_string())
    );
    // "alice" has no colon: empty password
    assert_eq!(basic(Auth::parse(b"Basic YWxpY2U=")), ("alice".to_string(), String::new()));
    // "a:b:c": split at the first colon
    assert_eq!(basic(Auth::parse(b"Basic YTpiOmM=")), ("a".to_string(), "b:c".to_string()));
    assert!(Auth::parse(b"Basic not*base64").is_none());
    // base64 of the bytes ff fe is no UTF-8
    assert!(Auth::parse(b"Basic //4=").is_none());
}

#[test]
fn parse_key_bearer_session_other() {
    match Auth::parse(b"Key abc def") {
        Some(Auth::Key(k)) => assert_eq!(k, "abc def"),
        _ => panic!(),
    }
    assert!(Auth::parse(b"Key \xff").is_none());
    match Auth::parse(b"Bearer aGVsbG8=") {
        Some(Auth::Bearer(t)) => assert_eq!(t, b"hello".to_vec()),
        _ => panic!(),
    }
    // 16 bytes of 0x01 and the id 258
    let mut raw = vec![1u8; 16];
    raw.extend_from_slice(&258u64.to_be_bytes());
    let header = format!("Session {}", base64::encode(&raw));
    match Auth::parse(header.as_bytes()) {
        Some(Auth::Session { id, last_message_id }) => {
            assert_eq!(id.as_bytes(), &[1u8; 16]);
            assert_eq!(last_message_id, 258);
        }
        _ => panic!(),
    }
    assert!(Auth::parse(b"Session aGVsbG8=").is_none());
    match Auth::parse(b"Digest x y") {
        Some(Auth::Other { auth_type, credentials }) => {
            assert_eq!(auth_type, b"Digest".to_vec());
            assert_eq!(credentials, b"x y".to_vec());
        }
        _ => panic!(),
    }
    assert!(Auth::parse(b"NoSpace").is_none());
}

#[test]
fn to_bytes_and_back() {
    let a = Auth::Basic { username: "bob".to_string(), password: "pa:ss".to_string() };
    let bytes = a.to_bytes();
    assert_eq!(bytes, b"Basic Ym9iOnBhOnNz".to_vec());
    assert_eq!(basic(Auth::parse(&bytes)), ("bob".to_string(), "pa:ss".to_string()));
    assert_eq!(a.to_string(), "Basic Ym9iOnBhOnNz");

    let k = Auth::Key("k e y".to_string());
    assert_eq!(k.to_bytes(), b"Key k e y".to_vec());

    let o = Auth::Other { auth_type: b"X".to_vec(), credentials: b"1 2".to_vec() };
    assert_eq!(o.to_bytes(), b"X 1 2".to_vec());

    let t = Auth::Bearer(b"hello".to_vec());
    assert_eq!(t.to_bytes(), b"Bearer aGVsbG8=".to_vec());
    assert!(matches!(Auth::parse(&t.to_bytes()), Some(Auth::Bearer(b)) if b == b"hello".to_vec()));
    assert_eq!(t.to_string(), "Bearer aGVsbG8=");
    assert_eq!(Auth::Key("k\u{e9}y".to_string()).to_string(), "Key k\u{e9}y");

    let id = uuid::Uuid::from_bytes([2u8; 16]);
    let s = Auth::Session { id, last_message_id: 1 };
    assert_eq!(s.to_bytes(), b"Session AgICAgICAgICAgICAgICAgAAAAAAAAAB".to_vec());
    assert_eq!(s.to_string(), "Session AgICAgICAgICAgICAgICAgAAAAAAAAAB");
    match Auth::parse(&s.to_bytes()) {
        Some(Auth::Session { id: i, last_message_id }) => {
            assert_eq!(i, id);
            assert_eq!(last_message_id, 1);
        }
        _ => panic!("the session header reads back"),
    }
}

#[test]
fn from_base64_helpers() {
    assert!(matches!(Auth::bearer_from_base64(b"YQ=="), Some(Auth::Bearer(t)) if t == b"a".to_vec()));
    assert!(Auth::bearer_from_base64(b"!").is_none());
    assert!(Auth::session_from_base64(b"YQ==").is_none());
    assert_eq!(basic(Auth::basic_from_base64(b"dTpw")), ("u".to_string(), "p".to_string()));
}

#[test]
fn auth_error_messages() {
    assert_eq!(AuthError::Unauthorized.message(), "Unauthorized");
    assert_eq!(AuthError::Invalid.message(), "Invalid");
    assert_eq!(AuthError::Unsupported.message(), "Unsupported");
    assert_eq!(AuthError::InternalServerError.message(), "Error");
    let _handler: DefaultSessionHandler<u32> = DefaultSessionHandler::new();
}

#[test]
fn upgrade_rejections() {
    let r = invalid_header_rejection();
    assert_eq!((r.status, r.body), (401, "Unauthorized: Invalid authentication header"));
    let r = auth_rejection(AuthError::Unauthorized);
    assert_eq!((r.status, r.body), (401, "Unauthorized: Invalid credentials"));
    let r = auth_rejection(AuthError::Invalid);
    assert_eq!((r.status, r.body), (401, "Unauthorized: Invalid authentication header"));
    let r = auth_rejection(AuthError::Unsupported);
    assert_eq!((r.status, r.body), (401, "Unauthorized: Unsupported authentication method"));
    let r = auth_rejection(AuthError::InternalServerError);
    assert_eq!((r.status, r.body), (500, "Internal Server Error"));
    let r = upgrade_failed_rejection();
    assert_eq!((r.status, r.body), (500, "Internal Server Error"));
}

#[test]
fn upgrade_credentials() {
    assert!(matches!(request_credentials(None), Ok(None)));
    assert!(matches!(request_credentials(Some(b"Key k")), Ok(Some(Auth::Key(_)))));
    match request_credentials(Some(b"Key")) {
        Err(r) => assert_eq!(r.status, 401),
        _ => panic!(),
    }
}
