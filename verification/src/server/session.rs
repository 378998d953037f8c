//! Authentication and sessions: the `Authorization` header and the
//! errors of a refused authentication.

use vstd::prelude::*;
use vstd::utf8::*;
use vstd::string::*;
use byteorder::{BigEndian, ReadBytesExt, WriteBytesExt};
use uuid::Uuid;

use crate::text::{
    append_bytes, ascii_char, bytes_equal, bytes_to_vec, find_first, first_index_of,
    lemma_encode_ascii, lemma_encode_join, lemma_first_index_of_at, lemma_split_first_join,
    split_first, split_first_ascii, string_from_utf8, COLON, SPACE,
};

verus! {

#[verifier::external_type_specification]
#[verifier::external_body]
pub struct ExUuid(Uuid);

/* Outside calls */

/// The 16 bytes of a UUID.
pub uninterp spec fn uuid_bytes(id: Uuid) -> Seq<u8>;

/// `Uuid::from_slice`: the UUID of exactly 16 bytes.
#[verifier::external_body]
fn uuid_from_slice(b: &[u8]) -> (r: Option<Uuid>)
    ensures
        r is Some <==> b@.len() == 16,
        r matches Some(id) ==> uuid_bytes(id) == b@,
{
    Uuid::from_slice(b).ok()
}

/// `Uuid::as_bytes`: the 16 bytes of the UUID.
#[verifier::external_body]
fn uuid_as_slice(id: &Uuid) -> (r: &[u8])
    ensures
        r@ == uuid_bytes(*id),
        r@.len() == 16,
{
    &id.as_bytes()[..]
}

/// What `base64::decode` (standard alphabet, padded) yields for `input`,
/// if it is valid base64.
pub uninterp spec fn base64_decoded(input: Seq<u8>) -> Option<Seq<u8>>;

/// What `base64::encode` (standard alphabet, padded) yields for `input`.
pub uninterp spec fn base64_encoded(input: Seq<u8>) -> Seq<char>;

/// A character of the standard base64 alphabet, padding included.
pub open spec fn is_base64_char(c: char) -> bool {
    ||| ('A' <= c && c <= 'Z')
    ||| ('a' <= c && c <= 'z')
    ||| ('0' <= c && c <= '9')
    ||| c == '+'
    ||| c == '/'
    ||| c == '='
}

/// `base64::encode` computes the output length with checked arithmetic and
/// panics when it overflows.
pub open spec fn base64_encodable(len: nat) -> bool {
    if len % 3 == 0 {
        len / 3 * 4 <= usize::MAX
    } else {
        len / 3 * 4 + 4 <= usize::MAX
    }
}

/// `base64::decode`: the bytes that `input` encodes, if it is valid base64.
/// (The call panics when `input.len() + 7` overflows.)
#[verifier::external_body]
fn base64_decode(input: &[u8]) -> (r: Option<Vec<u8>>)
    requires
        input@.len() + 7 <= usize::MAX,
    ensures
        match r {
            Some(v) => base64_decoded(input@) == Some(v@),
            None => base64_decoded(input@) is None,
        },
{
    base64::decode(input).ok()
}

/// `base64::encode`: the base64 text of `input`. Its characters are from
/// the standard alphabet, and decoding its bytes gives `input` back.
#[verifier::external_body]
fn base64_encode(input: &[u8]) -> (r: String)
    requires
        base64_encodable(input@.len()),
    ensures
        r@ == base64_encoded(input@),
        forall|i: int| 0 <= i < r@.len() ==> is_base64_char(#[trigger] r@[i]),
        base64_decoded(encode_utf8(r@)) == Some(input@),
{
    base64::encode(input)
}

/// The number that 8 bytes denote, most significant byte first.
pub open spec fn be_value(b: Seq<u8>) -> nat
    decreases b.len(),
{
    if b.len() == 0 {
        0
    } else {
        be_value(b.drop_last()) * 256 + b.last() as nat
    }
}

/// The 8 bytes of `v`, most significant byte first.
pub open spec fn be_bytes(v: u64) -> Seq<u8> {
    seq![
        (v >> 56) as u8, (v >> 48) as u8, (v >> 40) as u8, (v >> 32) as u8,
        (v >> 24) as u8, (v >> 16) as u8, (v >> 8) as u8, v as u8,
    ]
}

/// `<Cursor<&[u8]> as ReadBytesExt>::read_u64::<BigEndian>`: the first 8
/// bytes as a big-endian number, when there are 8.
#[verifier::external_body]
fn read_u64_be(b: &[u8]) -> (r: Option<u64>)
    ensures
        r is Some <==> b@.len() >= 8,
        r matches Some(v) ==> v == be_value(b@.subrange(0, 8)),
{
    std::io::Cursor::new(b).read_u64::<BigEndian>().ok()
}

/// `<Vec<u8> as WriteBytesExt>::write_u64::<BigEndian>`: appends the 8
/// bytes of `v`, most significant first.
#[verifier::external_body]
fn write_u64_be(buf: &mut Vec<u8>, v: u64)
    ensures
        final(buf)@ == old(buf)@ + be_bytes(v),
{
    buf.write_u64::<BigEndian>(v).unwrap()
}

/* The header */

/// A parsed version of the `Authorization` header
pub enum Auth {
    /// User name + Password
    Basic {
        /// User name
        username: String,
        /// Password
        password: String,
    },
    /// API Key
    Key(String),
    /// Token Login (e.g. JWT)
    Bearer(Vec<u8>),
    /// Login using an existing session. This is used to implement
    /// reliable messaging. The client connects using the same session
    /// ID and the last message it has received.
    Session {
        /// ID of the session to be continued
        id: Uuid,
        /// The last message the client has processed
        last_message_id: u64,
    },
    /// Another authentication scheme was used.
    Other {
        /// Authentication type
        auth_type: Vec<u8>,
        /// Authencation credentials
        credentials: Vec<u8>,
    },
}

/// An `Authorization` header's content, with text as characters and the
/// session id as its 16 bytes.
pub enum AuthModel {
    Basic { username: Seq<char>, password: Seq<char> },
    Key(Seq<char>),
    Bearer(Seq<u8>),
    Session { id: Seq<u8>, last_message_id: u64 },
    Other { auth_type: Seq<u8>, credentials: Seq<u8> },
}

impl View for Auth {
    type V = AuthModel;

    open spec fn view(&self) -> AuthModel {
        match self {
            Auth::Basic { username, password } => AuthModel::Basic {
                username: username@,
                password: password@,
            },
            Auth::Key(key) => AuthModel::Key(key@),
            Auth::Bearer(token) => AuthModel::Bearer(token@),
            Auth::Session { id, last_message_id } => AuthModel::Session {
                id: uuid_bytes(*id),
                last_message_id: *last_message_id,
            },
            Auth::Other { auth_type, credentials } => AuthModel::Other {
                auth_type: auth_type@,
                credentials: credentials@,
            },
        }
    }
}

/// `b"Basic"`
pub open spec fn basic_scheme() -> Seq<u8> {
    seq!['B' as u8, 'a' as u8, 's' as u8, 'i' as u8, 'c' as u8]
}

/// `b"Key"`
pub open spec fn key_scheme() -> Seq<u8> {
    seq!['K' as u8, 'e' as u8, 'y' as u8]
}

/// `b"Bearer"`
pub open spec fn bearer_scheme() -> Seq<u8> {
    seq!['B' as u8, 'e' as u8, 'a' as u8, 'r' as u8, 'e' as u8, 'r' as u8]
}

/// `b"Session"`
pub open spec fn session_scheme() -> Seq<u8> {
    seq!['S' as u8, 'e' as u8, 's' as u8, 's' as u8, 'i' as u8, 'o' as u8, 'n' as u8]
}

/// `Basic` credentials: base64 of UTF-8 `username:password`; without a
/// colon the whole text is the user name and the password is empty.
pub open spec fn basic_credentials(credentials: Seq<u8>) -> Option<AuthModel> {
    match base64_decoded(credentials) {
        Some(bytes) => if valid_utf8(bytes) {
            let text = decode_utf8(bytes);
            match split_first(text, ':') {
                Some((username, password)) => Some(AuthModel::Basic { username, password }),
                None => Some(AuthModel::Basic { username: text, password: Seq::empty() }),
            }
        } else {
            None
        },
        None => None,
    }
}

/// `Bearer` credentials: base64 of the token.
pub open spec fn bearer_credentials(credentials: Seq<u8>) -> Option<AuthModel> {
    match base64_decoded(credentials) {
        Some(token) => Some(AuthModel::Bearer(token)),
        None => None,
    }
}

/// `Session` credentials: base64 of 24 bytes, the 16 of the session id and
/// the last message id as 8 big-endian bytes.
pub open spec fn session_credentials(credentials: Seq<u8>) -> Option<AuthModel> {
    match base64_decoded(credentials) {
        Some(bytes) => if bytes.len() == 24 {
            Some(
                AuthModel::Session {
                    id: bytes.subrange(0, 16),
                    last_message_id: be_value(bytes.subrange(16, 24)) as u64,
                },
            )
        } else {
            None
        },
        None => None,
    }
}

/// The content of an `Authorization` header: the scheme up to the first
/// space, then the credentials.
pub open spec fn parse_auth(header: Seq<u8>) -> Option<AuthModel> {
    match first_index_of(header, SPACE) {
        Some(i) => {
            let scheme = header.subrange(0, i);
            let credentials = header.subrange(i + 1, header.len() as int);
            if scheme == basic_scheme() {
                basic_credentials(credentials)
            } else if scheme == key_scheme() {
                if valid_utf8(credentials) {
                    Some(AuthModel::Key(decode_utf8(credentials)))
                } else {
                    None
                }
            } else if scheme == bearer_scheme() {
                bearer_credentials(credentials)
            } else if scheme == session_scheme() {
                session_credentials(credentials)
            } else {
                Some(AuthModel::Other { auth_type: scheme, credentials })
            }
        },
        None => None,
    }
}

/// The bytes of `username:password`.
pub open spec fn basic_pair(username: Seq<char>, password: Seq<char>) -> Seq<u8> {
    encode_utf8(username) + seq![COLON] + encode_utf8(password)
}

/// The 24 bytes of a session: its id, then the last message id as 8
/// big-endian bytes.
pub open spec fn session_bytes(id: Seq<u8>, last_message_id: u64) -> Seq<u8> {
    id + be_bytes(last_message_id)
}

/// What `Auth::to_bytes` writes: the scheme, a space, and the credentials
/// as `parse` reads them.
pub open spec fn auth_header(a: AuthModel) -> Seq<u8> {
    match a {
        AuthModel::Basic { username, password } => basic_scheme() + seq![SPACE] + encode_utf8(
            base64_encoded(basic_pair(username, password)),
        ),
        AuthModel::Key(key) => key_scheme() + seq![SPACE] + encode_utf8(key),
        AuthModel::Bearer(token) => bearer_scheme() + seq![SPACE] + encode_utf8(
            base64_encoded(token),
        ),
        AuthModel::Session { id, last_message_id } => session_scheme() + seq![SPACE] + encode_utf8(
            base64_encoded(session_bytes(id, last_message_id)),
        ),
        AuthModel::Other { auth_type, credentials } => auth_type + seq![SPACE] + credentials,
    }
}

/// Whether `to_bytes` can write the header without an arithmetic overflow
/// in base64 encoding.
pub open spec fn auth_writable(a: AuthModel) -> bool {
    match a {
        AuthModel::Basic { username, password } => base64_encodable(
            basic_pair(username, password).len(),
        ),
        AuthModel::Bearer(token) => base64_encodable(token.len()),
        _ => true,
    }
}

/// Every header whose base64 text has a length that fits in `usize` can
/// be written: a `Basic` header when the base64 of `username:password`
/// fits, a `Bearer` header when the base64 of the token fits, and `Key`,
/// `Session` and `Other` headers always.
pub proof fn law_writable_headers(a: AuthModel)
    ensures
        a matches AuthModel::Bearer(t) && t.len() / 3 * 4 + 4 <= usize::MAX ==> auth_writable(a),
        a matches AuthModel::Basic { username, password } && (encode_utf8(username).len() + 1
            + encode_utf8(password).len()) / 3 * 4 + 4 <= usize::MAX ==> auth_writable(a),
        !(a is Basic || a is Bearer) ==> auth_writable(a),
{
}

/// The 8 bytes of a number read back as the number.
proof fn lemma_be_roundtrip(v: u64)
    ensures
        be_value(be_bytes(v)) == v,
{
    let b = be_bytes(v);
    let x0: u8 = (v >> 56) as u8;
    let x1: u8 = (v >> 48) as u8;
    let x2: u8 = (v >> 40) as u8;
    let x3: u8 = (v >> 32) as u8;
    let x4: u8 = (v >> 24) as u8;
    let x5: u8 = (v >> 16) as u8;
    let x6: u8 = (v >> 8) as u8;
    let x7: u8 = v as u8;
    assert(b.subrange(0, 0).len() == 0);
    assert(be_value(b.subrange(0, 0)) == 0);
    assert(b[0] == x0 && b[1] == x1 && b[2] == x2 && b[3] == x3);
    assert(b[4] == x4 && b[5] == x5 && b[6] == x6 && b[7] == x7);
    assert(b.subrange(0, 1).last() == x0);
    assert(b.subrange(0, 1).drop_last() =~= b.subrange(0, 0));
    assert(b.subrange(0, 2).drop_last() =~= b.subrange(0, 1));
    assert(b.subrange(0, 3).drop_last() =~= b.subrange(0, 2));
    assert(b.subrange(0, 4).drop_last() =~= b.subrange(0, 3));
    assert(b.subrange(0, 5).drop_last() =~= b.subrange(0, 4));
    assert(b.subrange(0, 6).drop_last() =~= b.subrange(0, 5));
    assert(b.subrange(0, 7).drop_last() =~= b.subrange(0, 6));
    assert(b.drop_last() =~= b.subrange(0, 7));
    assert(be_value(b.subrange(0, 1)) == x0);
    assert(be_value(b.subrange(0, 2)) == x0 * 256 + x1);
    assert(be_value(b.subrange(0, 3)) == (x0 * 256 + x1) * 256 + x2);
    assert(be_value(b.subrange(0, 4)) == ((x0 * 256 + x1) * 256 + x2) * 256 + x3);
    assert(be_value(b.subrange(0, 5)) == (((x0 * 256 + x1) * 256 + x2) * 256 + x3) * 256 + x4);
    assert(be_value(b.subrange(0, 6)) == ((((x0 * 256 + x1) * 256 + x2) * 256 + x3) * 256 + x4)
        * 256 + x5);
    assert(be_value(b.subrange(0, 7)) == (((((x0 * 256 + x1) * 256 + x2) * 256 + x3) * 256 + x4)
        * 256 + x5) * 256 + x6);
    assert(be_value(b) == ((((((x0 * 256 + x1) * 256 + x2) * 256 + x3) * 256 + x4) * 256 + x5)
        * 256 + x6) * 256 + x7);
    assert(((((((x0 * 256 + x1) * 256 + x2) * 256 + x3) * 256 + x4) * 256 + x5) * 256 + x6) * 256
        + x7 == v) by (bit_vector)
        requires
            x0 == (v >> 56) as u8,
            x1 == (v >> 48) as u8,
            x2 == (v >> 40) as u8,
            x3 == (v >> 32) as u8,
            x4 == (v >> 24) as u8,
            x5 == (v >> 16) as u8,
            x6 == (v >> 8) as u8,
            x7 == v as u8,
    ;
}

/// The headers that read back as what was written: a `Basic` user name
/// without a colon, any `Key`, `Bearer` and `Session`, and an `Other`
/// scheme without a space that is none of the known schemes.
pub open spec fn auth_roundtrips(a: AuthModel) -> bool {
    match a {
        AuthModel::Basic { username, .. } => !username.contains(':'),
        AuthModel::Key(_) => true,
        AuthModel::Bearer(_) => true,
        AuthModel::Session { .. } => true,
        AuthModel::Other { auth_type, .. } => {
            &&& !auth_type.contains(SPACE)
            &&& auth_type != basic_scheme()
            &&& auth_type != key_scheme()
            &&& auth_type != bearer_scheme()
            &&& auth_type != session_scheme()
        },
        _ => false,
    }
}

fn basic_scheme_bytes() -> (r: Vec<u8>)
    ensures
        r@ == basic_scheme(),
{
    vec!['B' as u8, 'a' as u8, 's' as u8, 'i' as u8, 'c' as u8]
}

fn key_scheme_bytes() -> (r: Vec<u8>)
    ensures
        r@ == key_scheme(),
{
    vec!['K' as u8, 'e' as u8, 'y' as u8]
}

fn bearer_scheme_bytes() -> (r: Vec<u8>)
    ensures
        r@ == bearer_scheme(),
{
    vec!['B' as u8, 'e' as u8, 'a' as u8, 'r' as u8, 'e' as u8, 'r' as u8]
}

fn session_scheme_bytes() -> (r: Vec<u8>)
    ensures
        r@ == session_scheme(),
{
    vec!['S' as u8, 'e' as u8, 's' as u8, 's' as u8, 'i' as u8, 'o' as u8, 'n' as u8]
}

impl Auth {
    /// Parse the `Authorization` header returning an `Auth` object.
    pub fn parse(header: &[u8]) -> (r: Option<Auth>)
        requires
            header@.len() + 7 <= usize::MAX,
        ensures
            match r {
                Some(a) => parse_auth(header@) == Some(a@),
                None => parse_auth(header@) is None,
            },
    {
        let i = match find_first(header, SPACE) {
            Some(i) => i,
            None => return None,
        };
        let scheme = &header[0..i];
        let credentials = bytes_to_vec(&header[i + 1..header.len()]);
        if bytes_equal(scheme, basic_scheme_bytes().as_slice()) {
            Auth::basic_from_base64(credentials.as_slice())
        } else if bytes_equal(scheme, key_scheme_bytes().as_slice()) {
            match string_from_utf8(credentials) {
                Some(key) => Some(Auth::Key(key)),
                None => None,
            }
        } else if bytes_equal(scheme, bearer_scheme_bytes().as_slice()) {
            Auth::bearer_from_base64(credentials.as_slice())
        } else if bytes_equal(scheme, session_scheme_bytes().as_slice()) {
            Auth::session_from_base64(credentials.as_slice())
        } else {
            Some(Auth::Other { auth_type: bytes_to_vec(scheme), credentials })
        }
    }

    /// Create Auth::Basic object from base64 encoded credentials
    pub fn basic_from_base64(credentials: &[u8]) -> (r: Option<Auth>)
        requires
            credentials@.len() + 7 <= usize::MAX,
        ensures
            match r {
                Some(a) => basic_credentials(credentials@) == Some(a@),
                None => basic_credentials(credentials@) is None,
            },
    {
        let bytes = match base64_decode(credentials) {
            Some(bytes) => bytes,
            None => return None,
        };
        let text = match string_from_utf8(bytes) {
            Some(text) => text,
            None => return None,
        };
        proof {
            assert(ascii_char(COLON) == ':');
        }
        match split_first_ascii(text.as_str(), COLON) {
            Some((username, password)) => Some(Auth::Basic { username, password }),
            None => Some(Auth::Basic { username: text, password: String::new() }),
        }
    }

    /// Create Auth::Bearer object from credentials
    pub fn bearer_from_base64(credentials: &[u8]) -> (r: Option<Auth>)
        requires
            credentials@.len() + 7 <= usize::MAX,
        ensures
            match r {
                Some(a) => bearer_credentials(credentials@) == Some(a@),
                None => bearer_credentials(credentials@) is None,
            },
    {
        match base64_decode(credentials) {
            Some(token) => Some(Auth::Bearer(token)),
            None => None,
        }
    }

    /// Create Auth::Session object from credentials
    pub fn session_from_base64(credentials: &[u8]) -> (r: Option<Auth>)
        requires
            credentials@.len() + 7 <= usize::MAX,
        ensures
            match r {
                Some(a) => session_credentials(credentials@) == Some(a@),
                None => session_credentials(credentials@) is None,
            },
    {
        let bytes = match base64_decode(credentials) {
            Some(bytes) => bytes,
            None => return None,
        };
        if bytes.len() != 24 {
            return None;
        }
        let id = match uuid_from_slice(&bytes.as_slice()[0..16]) {
            Some(id) => id,
            None => return None,
        };
        let last_message_id = match read_u64_be(&bytes.as_slice()[16..24]) {
            Some(n) => n,
            None => return None,
        };
        proof {
            assert(bytes@.subrange(16, 24).subrange(0, 8) =~= bytes@.subrange(16, 24));
        }
        Some(Auth::Session { id, last_message_id })
    }
}

/// The header `scheme + " " + credentials` splits back into `scheme` and
/// `credentials` when the scheme holds no space.
proof fn lemma_scheme_split(scheme: Seq<u8>, credentials: Seq<u8>)
    requires
        !scheme.contains(SPACE),
    ensures
        ({
            let h = scheme + seq![SPACE] + credentials;
            &&& first_index_of(h, SPACE) == Some(scheme.len() as int)
            &&& h.subrange(0, scheme.len() as int) == scheme
            &&& h.subrange(scheme.len() + 1int, h.len() as int) == credentials
        }),
{
    let h = scheme + seq![SPACE] + credentials;
    lemma_split_first_join(scheme, SPACE, credentials);
    assert forall|j: int| 0 <= j < scheme.len() implies h[j] != SPACE by {
        assert(h[j] == scheme[j]);
        if scheme[j] == SPACE {
            assert(scheme.contains(SPACE));
        }
    }
    assert(h[scheme.len() as int] == SPACE);
    lemma_first_index_of_at(h, SPACE, scheme.len() as int);
}

/// Base64 text holds no space, nor does its UTF-8 encoding.
proof fn lemma_base64_no_space(t: Seq<char>)
    requires
        forall|i: int| 0 <= i < t.len() ==> is_base64_char(#[trigger] t[i]),
    ensures
        !encode_utf8(t).contains(SPACE),
{
    assert(ascii_char(SPACE) == ' ');
    assert(!t.contains(' ')) by {
        if t.contains(' ') {
            let k = choose|k: int| 0 <= k < t.len() && t[k] == ' ';
            assert(is_base64_char(t[k]));
        }
    }
    lemma_encode_ascii(t, SPACE);
}

proof fn lemma_no_space(s: Seq<u8>)
    requires
        forall|i: int| 0 <= i < s.len() ==> s[i] != SPACE,
    ensures
        !s.contains(SPACE),
{
}

/// A `Key` header, and an `Other` header whose scheme holds no space and
/// is none of the known schemes, read back as the header that was written.
/// (`Basic`, `Bearer` and `Session` read back too, when their user name
/// holds no colon: `Auth::to_bytes` states it, since their base64 text is
/// known only from the encoder's call.)
pub proof fn law_text_header_roundtrip(a: AuthModel)
    requires
        auth_roundtrips(a),
        a is Key || a is Other,
    ensures
        parse_auth(auth_header(a)) == Some(a),
{
    match a {
        AuthModel::Key(key) => {
            let enc = encode_utf8(key);
            lemma_no_space(key_scheme());
            lemma_scheme_split(key_scheme(), enc);
            vstd::utf8::encode_utf8_valid_utf8(key);
            vstd::utf8::encode_utf8_decode_utf8(key);
            assert(basic_scheme().len() != key_scheme().len());
        },
        AuthModel::Other { auth_type, credentials } => {
            lemma_scheme_split(auth_type, credentials);
        },
        _ => {},
    }
}

/// Bytes that spell ASCII characters one for one are valid UTF-8.
proof fn lemma_ascii_valid(chars: Seq<char>, bytes: Seq<u8>)
    requires
        vstd::utf8::is_ascii_chars(chars),
        bytes.len() == chars.len(),
        forall|i: int| 0 <= i < chars.len() ==> bytes[i] == #[trigger] chars[i] as u8,
    ensures
        valid_utf8(bytes),
{
    vstd::utf8::is_ascii_chars_encode_utf8(chars);
    assert(bytes =~= encode_utf8(chars));
    vstd::utf8::encode_utf8_valid_utf8(chars);
}

/// A valid prefix followed by encoded text is valid UTF-8.
proof fn lemma_prefixed_text_valid(prefix: Seq<u8>, text: Seq<char>)
    requires
        valid_utf8(prefix),
    ensures
        valid_utf8(prefix + encode_utf8(text)),
{
    vstd::utf8::encode_utf8_valid_utf8(text);
    vstd::utf8::valid_utf8_concat(prefix, encode_utf8(text));
}

impl Auth {
    /// Serialize the Auth object into bytes for use inside the HTTP header.
    /// What `parse` reads back from it is stated by `auth_roundtrips`.
    pub fn to_bytes(&self) -> (r: Vec<u8>)
        requires
            auth_writable(self@),
        ensures
            r@ == auth_header(self@),
            auth_roundtrips(self@) ==> parse_auth(r@) == Some(self@),
            !(self@ is Other) ==> valid_utf8(r@),
    {
        let mut buf: Vec<u8> = Vec::new();
        match self {
            Auth::Basic { username, password } => {
                let mut pair: Vec<u8> = Vec::new();
                append_bytes(&mut pair, username.as_str().as_bytes());
                pair.push(COLON);
                append_bytes(&mut pair, password.as_str().as_bytes());
                assert(pair@ =~= basic_pair(username@, password@));
                let b64 = base64_encode(pair.as_slice());
                buf = basic_scheme_bytes();
                buf.push(SPACE);
                append_bytes(&mut buf, b64.as_str().as_bytes());
                proof {
                    let enc = encode_utf8(b64@);
                    assert(buf@ =~= basic_scheme() + seq![SPACE] + enc);
                    let prefix = basic_scheme() + seq![SPACE];
                    lemma_ascii_valid(seq!['B', 'a', 's', 'i', 'c', ' '], prefix);
                    lemma_prefixed_text_valid(prefix, b64@);
                    if auth_roundtrips(self@) {
                        assert(ascii_char(SPACE) == ' ');
                        assert(!b64@.contains(' ')) by {
                            if b64@.contains(' ') {
                                let k = choose|k: int| 0 <= k < b64@.len() && b64@[k] == ' ';
                                assert(is_base64_char(b64@[k]));
                            }
                        }
                        lemma_encode_ascii(b64@, SPACE);
                        lemma_no_space(basic_scheme());
                        lemma_scheme_split(basic_scheme(), enc);
                        assert(ascii_char(COLON) == ':');
                        lemma_encode_join(username@, COLON, password@);
                        let text = username@ + seq![':'] + password@;
                        vstd::utf8::encode_utf8_valid_utf8(text);
                        vstd::utf8::encode_utf8_decode_utf8(text);
                        lemma_split_first_join(username@, ':', password@);
                        assert(basic_credentials(enc) == Some(self@));
                    }
                }
            },
            Auth::Key(key) => {
                buf = key_scheme_bytes();
                buf.push(SPACE);
                append_bytes(&mut buf, key.as_str().as_bytes());
                proof {
                    let enc = encode_utf8(key@);
                    assert(buf@ =~= key_scheme() + seq![SPACE] + enc);
                    law_text_header_roundtrip(self@);
                    let prefix = key_scheme() + seq![SPACE];
                    lemma_ascii_valid(seq!['K', 'e', 'y', ' '], prefix);
                    lemma_prefixed_text_valid(prefix, key@);
                }
            },
            Auth::Bearer(token) => {
                let b64 = base64_encode(token.as_slice());
                buf = bearer_scheme_bytes();
                buf.push(SPACE);
                append_bytes(&mut buf, b64.as_str().as_bytes());
                proof {
                    let enc = encode_utf8(b64@);
                    assert(buf@ =~= bearer_scheme() + seq![SPACE] + enc);
                    lemma_base64_no_space(b64@);
                    lemma_no_space(bearer_scheme());
                    lemma_scheme_split(bearer_scheme(), enc);
                    let prefix = bearer_scheme() + seq![SPACE];
                    lemma_ascii_valid(seq!['B', 'e', 'a', 'r', 'e', 'r', ' '], prefix);
                    lemma_prefixed_text_valid(prefix, b64@);
                    assert(bearer_scheme().len() != basic_scheme().len());
                    assert(bearer_scheme().len() != key_scheme().len());
                }
            },
            Auth::Session { id, last_message_id } => {
                let mut bytes: Vec<u8> = Vec::new();
                append_bytes(&mut bytes, uuid_as_slice(id));
                write_u64_be(&mut bytes, *last_message_id);
                assert(bytes@ =~= session_bytes(uuid_bytes(*id), *last_message_id));
                assert(base64_encodable(bytes@.len()));
                let b64 = base64_encode(bytes.as_slice());
                buf = session_scheme_bytes();
                buf.push(SPACE);
                append_bytes(&mut buf, b64.as_str().as_bytes());
                proof {
                    let enc = encode_utf8(b64@);
                    assert(buf@ =~= session_scheme() + seq![SPACE] + enc);
                    lemma_base64_no_space(b64@);
                    lemma_no_space(session_scheme());
                    lemma_scheme_split(session_scheme(), enc);
                    let prefix = session_scheme() + seq![SPACE];
                    lemma_ascii_valid(seq!['S', 'e', 's', 's', 'i', 'o', 'n', ' '], prefix);
                    lemma_prefixed_text_valid(prefix, b64@);
                    assert(session_scheme().len() != basic_scheme().len());
                    assert(session_scheme().len() != key_scheme().len());
                    assert(session_scheme().len() != bearer_scheme().len());
                    assert(bytes@.subrange(0, 16) =~= uuid_bytes(*id));
                    assert(bytes@.subrange(16, 24) =~= be_bytes(*last_message_id));
                    lemma_be_roundtrip(*last_message_id);
                    assert(session_credentials(enc) == Some(self@));
                }
            },
            Auth::Other { auth_type, credentials } => {
                append_bytes(&mut buf, auth_type.as_slice());
                buf.push(SPACE);
                append_bytes(&mut buf, credentials.as_slice());
                proof {
                    assert(buf@ =~= auth_type@ + seq![SPACE] + credentials@);
                    if auth_roundtrips(self@) {
                        law_text_header_roundtrip(self@);
                    }
                }
            },
        }
        buf
    }

    /// The header as text. Every header but an `Other` one is valid UTF-8;
    /// an `Other` header must be.
    pub fn to_string(&self) -> (r: String)
        requires
            auth_writable(self@),
            self@ is Other ==> valid_utf8(auth_header(self@)),
        ensures
            r@ == decode_utf8(auth_header(self@)),
    {
        string_from_utf8(self.to_bytes()).unwrap()
    }
}

/// Whether `base64::encode` can encode `n` bytes without its length
/// computation overflowing.
fn base64_encodable_len(n: usize) -> (r: bool)
    ensures
        r == base64_encodable(n as nat),
{
    let q = n / 3;
    if q > usize::MAX / 4 {
        assert(q * 4 > usize::MAX) by (nonlinear_arith)
            requires
                q > usize::MAX / 4,
        ;
        false
    } else if n % 3 == 0 {
        assert(q * 4 <= usize::MAX) by (nonlinear_arith)
            requires
                q <= usize::MAX / 4,
        ;
        true
    } else {
        assert(q * 4 <= usize::MAX) by (nonlinear_arith)
            requires
                q <= usize::MAX / 4,
        ;
        q * 4 <= usize::MAX - 4
    }
}

impl Auth {
    /// Whether `to_bytes` can write this header (`auth_writable`): base64
    /// encoding panics when the length of its output overflows.
    pub fn can_write(&self) -> (r: bool)
        ensures
            r == auth_writable(self@),
            self@ matches AuthModel::Bearer(t) ==> (r <==> (if t.len() % 3 == 0 {
                t.len() / 3 * 4 <= usize::MAX
            } else {
                t.len() / 3 * 4 + 4 <= usize::MAX
            })),
            self@ matches AuthModel::Basic { username, password } ==> (r <==> ({
                let n = encode_utf8(username).len() + 1 + encode_utf8(password).len();
                if n % 3 == 0 {
                    n / 3 * 4 <= usize::MAX
                } else {
                    n / 3 * 4 + 4 <= usize::MAX
                }
            })),
            !(self@ is Basic || self@ is Bearer) ==> r,
    {
        match self {
            Auth::Basic { username, password } => {
                let u = username.as_str().as_bytes().len();
                let p = password.as_str().as_bytes().len();
                if u > usize::MAX - 1 || p > usize::MAX - 1 - u {
                    assert(basic_pair(username@, password@).len() > usize::MAX);
                    assert(!base64_encodable(basic_pair(username@, password@).len())) by (
                    nonlinear_arith)
                        requires
                            basic_pair(username@, password@).len() > usize::MAX,
                    ;
                    false
                } else {
                    assert(basic_pair(username@, password@).len() == u + 1 + p);
                    base64_encodable_len(u + 1 + p)
                }
            },
            Auth::Bearer(token) => base64_encodable_len(token.len()),
            _ => true,
        }
    }
}

/// Error enum for failed authorizations
#[derive(Debug, Clone, Copy, PartialEq, Eq)]
pub enum AuthError {
    /// The given credentials were not accepted and thus the remote
    /// side is not authorized to connect.
    Unauthorized,
    /// The given authorization header was invalid and could not be parsed.
    Invalid,
    /// The requested authorization method is not supported.
    Unsupported,
    /// An internal server happened.
    InternalServerError,
}

impl AuthError {
    /// The text that describes this error.
    pub fn message(&self) -> (r: &'static str)
        ensures
            r@ == match self {
                AuthError::Unauthorized => "Unauthorized"@,
                AuthError::Invalid => "Invalid"@,
                AuthError::Unsupported => "Unsupported"@,
                AuthError::InternalServerError => "Error"@,
            },
    {
        match self {
            AuthError::Unauthorized => "Unauthorized",
            AuthError::Invalid => "Invalid",
            AuthError::Unsupported => "Unsupported",
            AuthError::InternalServerError => "Error",
        }
    }
}

/// This session handler creates sessions using the `Default` trait of the
/// session type.
pub struct DefaultSessionHandler<S: Default + Send + Sync> {
    _phantom: std::marker::PhantomData<S>,
}

impl<S: Default + Send + Sync> DefaultSessionHandler<S> {
    /// Create a new `DefaultSessionHandler`
    pub fn new() -> Self {
        Self { _phantom: std::marker::PhantomData }
    }
}

impl<S: Default + Send + Sync> Default for DefaultSessionHandler<S> {
    fn default() -> Self {
        Self::new()
    }
}

} // verus!
