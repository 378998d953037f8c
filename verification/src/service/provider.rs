//! Service provider errors.

use vstd::prelude::*;
use bytes::Bytes;

use crate::buffer::{bytes_from_vec, bytes_view};

verus! {

#[verifier::external_type_specification]
#[verifier::external_body]
pub struct ExJsonError(serde_json::Error);

/// A boxed error of any kind, as transports and providers report them.
#[derive(Debug)]
#[verifier::external_body]
pub struct DynError(pub Box<dyn std::error::Error + Sync + Send>);

/// Error returned by the `Provider::call` method
#[derive(Debug)]
pub enum ProviderError {
    /// The requested service was not found.
    ServiceNotFound,
    /// The requested method was not found.
    MethodNotFound,
    /// An error occured while deserializing the request.
    DeserializerError(serde_json::Error),
    /// An error occured while serializing the response.
    SerializerError(serde_json::Error),
    /// Something else went wrong.
    InternalError(DynError),
}

/// `b"InternalError"`
pub open spec fn internal_error_text() -> Seq<u8> {
    seq![
        'I' as u8, 'n' as u8, 't' as u8, 'e' as u8, 'r' as u8, 'n' as u8, 'a' as u8, 'l' as u8,
        'E' as u8, 'r' as u8, 'r' as u8, 'o' as u8, 'r' as u8,
    ]
}

/// `b"DeserializerError"`
pub open spec fn deserializer_error_text() -> Seq<u8> {
    seq![
        'D' as u8, 'e' as u8, 's' as u8, 'e' as u8, 'r' as u8, 'i' as u8, 'a' as u8, 'l' as u8,
        'i' as u8, 'z' as u8, 'e' as u8, 'r' as u8, 'E' as u8, 'r' as u8, 'r' as u8, 'o' as u8,
        'r' as u8,
    ]
}

/// The text that names a provider error on the wire. A serializer error
/// is reported as an internal error, as the consumer can do nothing about
/// it.
pub open spec fn provider_error_text(e: ProviderError) -> Seq<u8> {
    match e {
        ProviderError::ServiceNotFound => crate::rpc::message::service_not_found_text(),
        ProviderError::MethodNotFound => crate::rpc::message::method_not_found_text(),
        ProviderError::SerializerError(_) => internal_error_text(),
        ProviderError::DeserializerError(_) => deserializer_error_text(),
        ProviderError::InternalError(_) => internal_error_text(),
    }
}

impl ProviderError {
    /// Convert error to Bytes
    pub fn to_bytes(&self) -> (r: Bytes)
        ensures
            bytes_view(r) == provider_error_text(*self),
            self is ServiceNotFound ==> bytes_view(r) == crate::rpc::message::service_not_found_text(),
            self is MethodNotFound ==> bytes_view(r) == crate::rpc::message::method_not_found_text(),
            self is DeserializerError ==> bytes_view(r) == deserializer_error_text(),
            self is SerializerError ==> bytes_view(r) == internal_error_text(),
            self is InternalError ==> bytes_view(r) == internal_error_text(),
    {
        let text: Vec<u8> = match self {
            ProviderError::ServiceNotFound => vec![
                'S' as u8, 'e' as u8, 'r' as u8, 'v' as u8, 'i' as u8, 'c' as u8, 'e' as u8,
                'N' as u8, 'o' as u8, 't' as u8, 'F' as u8, 'o' as u8, 'u' as u8, 'n' as u8, 'd' as u8,
            ],
            ProviderError::MethodNotFound => vec![
                'M' as u8, 'e' as u8, 't' as u8, 'h' as u8, 'o' as u8, 'd' as u8,
                'N' as u8, 'o' as u8, 't' as u8, 'F' as u8, 'o' as u8, 'u' as u8, 'n' as u8, 'd' as u8,
            ],
            ProviderError::DeserializerError(_) => vec![
                'D' as u8, 'e' as u8, 's' as u8, 'e' as u8, 'r' as u8, 'i' as u8, 'a' as u8, 'l' as u8,
                'i' as u8, 'z' as u8, 'e' as u8, 'r' as u8, 'E' as u8, 'r' as u8, 'r' as u8, 'o' as u8,
                'r' as u8,
            ],
            ProviderError::SerializerError(_) | ProviderError::InternalError(_) => vec![
                'I' as u8, 'n' as u8, 't' as u8, 'e' as u8, 'r' as u8, 'n' as u8, 'a' as u8, 'l' as u8,
                'E' as u8, 'r' as u8, 'r' as u8, 'o' as u8, 'r' as u8,
            ],
        };
        bytes_from_vec(text)
    }
}

/// The provider that a call goes to: the one registered for the called
/// service; a call to a service that has none fails with
/// `ServiceNotFound`.
pub fn provider_for<P>(registered: Option<P>) -> (r: Result<P, ProviderError>)
    ensures
        match registered {
            Some(p) => r matches Ok(q) && q == p,
            None => r matches Err(ProviderError::ServiceNotFound),
        },
{
    match registered {
        Some(p) => Ok(p),
        None => Err(ProviderError::ServiceNotFound),
    }
}

/// What a provider error is called on the wire: `ServiceNotFound` and
/// `MethodNotFound` by their names, a deserializer error as
/// `DeserializerError`, and a serializer or internal error as
/// `InternalError`. Only a deserializer error is called
/// `DeserializerError`, and no two of the four names are equal.
pub proof fn law_provider_error_names(e: ProviderError)
    ensures
        (e is InternalError || e is SerializerError) ==> provider_error_text(e) == seq![
            'I' as u8, 'n' as u8, 't' as u8, 'e' as u8, 'r' as u8, 'n' as u8, 'a' as u8,
            'l' as u8, 'E' as u8, 'r' as u8, 'r' as u8, 'o' as u8, 'r' as u8,
        ],
        provider_error_text(e) == seq![
            'D' as u8, 'e' as u8, 's' as u8, 'e' as u8, 'r' as u8, 'i' as u8, 'a' as u8,
            'l' as u8, 'i' as u8, 'z' as u8, 'e' as u8, 'r' as u8, 'E' as u8, 'r' as u8,
            'r' as u8, 'o' as u8, 'r' as u8,
        ] <==> e is DeserializerError,
        e is ServiceNotFound ==> provider_error_text(e) == seq![
            'S' as u8, 'e' as u8, 'r' as u8, 'v' as u8, 'i' as u8, 'c' as u8, 'e' as u8,
            'N' as u8, 'o' as u8, 't' as u8, 'F' as u8, 'o' as u8, 'u' as u8, 'n' as u8,
            'd' as u8,
        ],
        e is MethodNotFound ==> provider_error_text(e) == seq![
            'M' as u8, 'e' as u8, 't' as u8, 'h' as u8, 'o' as u8, 'd' as u8, 'N' as u8,
            'o' as u8, 't' as u8, 'F' as u8, 'o' as u8, 'u' as u8, 'n' as u8, 'd' as u8,
        ],
{
    assert(internal_error_text().len() == 13);
    assert(deserializer_error_text().len() == 17);
    assert(crate::rpc::message::service_not_found_text().len() == 15);
    assert(crate::rpc::message::method_not_found_text().len() == 14);
}

} // verus!
