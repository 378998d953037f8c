//! The decisions of the HTTP upgrade handler: which requests are refused
//! before the WebSocket connection starts, and with what answer.

use vstd::prelude::*;

use crate::server::session::{parse_auth, Auth, AuthError};

verus! {

/// The answer to an upgrade request that is refused.
#[derive(Debug, Clone, Copy, PartialEq, Eq)]
pub struct Rejection {
    /// The HTTP status code.
    pub status: u16,
    /// The plain text body.
    pub body: &'static str,
}

/// The answer when the `Authorization` header does not parse.
pub fn invalid_header_rejection() -> (r: Rejection)
    ensures
        r.status == 401,
        r.body@ == "Unauthorized: Invalid authentication header"@,
{
    Rejection { status: 401, body: "Unauthorized: Invalid authentication header" }
}

/// The answer when authentication fails with `err`.
pub fn auth_rejection(err: AuthError) -> (r: Rejection)
    ensures
        r.status == match err {
            AuthError::InternalServerError => 500u16,
            _ => 401u16,
        },
        r.body@ == match err {
            AuthError::Unauthorized => "Unauthorized: Invalid credentials"@,
            AuthError::Invalid => "Unauthorized: Invalid authentication header"@,
            AuthError::Unsupported => "Unauthorized: Unsupported authentication method"@,
            AuthError::InternalServerError => "Internal Server Error"@,
        },
{
    match err {
        AuthError::Unauthorized => Rejection { status: 401, body: "Unauthorized: Invalid credentials" },
        AuthError::Invalid => invalid_header_rejection(),
        AuthError::Unsupported => Rejection {
            status: 401,
            body: "Unauthorized: Unsupported authentication method",
        },
        AuthError::InternalServerError => upgrade_failed_rejection(),
    }
}

/// The answer when the WebSocket upgrade itself fails.
pub fn upgrade_failed_rejection() -> (r: Rejection)
    ensures
        r.status == 500,
        r.body@ == "Internal Server Error"@,
{
    Rejection { status: 500, body: "Internal Server Error" }
}

/// The credentials that the upgrade request presents: none without an
/// `Authorization` header, the parsed header otherwise, and a refusal when
/// the header does not parse.
pub fn request_credentials(header: Option<&[u8]>) -> (r: Result<Option<Auth>, Rejection>)
    requires
        header matches Some(h) ==> h@.len() + 7 <= usize::MAX,
    ensures
        match header {
            None => r matches Ok(None),
            Some(h) => match parse_auth(h@) {
                Some(a) => r matches Ok(Some(auth)) && auth@ == a,
                None => r matches Err(rejection) && rejection.status == 401 && rejection.body@
                    == "Unauthorized: Invalid authentication header"@,
            },
        },
{
    match header {
        None => Ok(None),
        Some(h) => match Auth::parse(h) {
            Some(auth) => Ok(Some(auth)),
            None => Err(invalid_header_rejection()),
        },
    }
}

} // verus!
