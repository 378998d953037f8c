//! The transport neutral error types.

use vstd::prelude::*;

verus! {

/// This error is used whenever something happens with the transport.
#[derive(Debug, PartialEq, Eq, Clone, Copy)]
pub enum TransportError {
    /// The transport has lost the connection.
    Disconnected,
}

impl TransportError {
    /// The text that describes this error.
    pub fn message(&self) -> (r: &'static str)
        ensures
            r@ == "Disconnected"@,
    {
        match self {
            TransportError::Disconnected => "Disconnected",
        }
    }
}

/// This error is returned by the FrameHandler when handling frames.
#[derive(Debug, PartialEq, Eq, Clone, Copy)]
pub enum FrameError {
    /// The received frame could not be parsed. This usually should make
    /// the transport terminate the connection as there is little that can
    /// be done to recover from this kind of error.
    ParseError,
    /// The frame handler is no longer available thus this transport
    /// should stop calling it.
    HandlerGone,
}

impl FrameError {
    /// The text that describes this error.
    pub fn message(&self) -> (r: &'static str)
        ensures
            r@ == match self {
                FrameError::ParseError => "ParseError"@,
                FrameError::HandlerGone => "HandlerGone"@,
            },
    {
        match self {
            FrameError::ParseError => "ParseError",
            FrameError::HandlerGone => "HandlerGone",
        }
    }
}

} // verus!
