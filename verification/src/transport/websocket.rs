//! The decisions of the WebSocket transport's receiving loop.

use vstd::prelude::*;

use crate::rpc::transport::FrameError;

verus! {

/// The kind of a WebSocket message.
#[derive(Debug, Clone, Copy, PartialEq, Eq)]
pub enum Opcode {
    Text,
    Binary,
    Close,
    Ping,
    Pong,
}

/// What the receiving loop got from the WebSocket stream.
#[derive(Debug, Clone, Copy, PartialEq, Eq)]
pub enum Incoming {
    /// A message of the given kind.
    Message(Opcode),
    /// Receiving failed.
    Failed,
    /// The stream ended.
    Ended,
}

/// What the receiving loop does next.
#[derive(Debug, Clone, Copy, PartialEq, Eq)]
pub enum ReceiveStep {
    /// Answer a ping with an empty pong, stopping if the sender is gone.
    ReplyPong,
    /// Hand the message's data to the frame handler as a frame.
    Dispatch,
    /// Wait for the next message.
    Ignore,
    /// Leave the loop and report the disconnect to the frame handler.
    Stop,
}

/// The receiving loop's step for what it received: data messages are
/// frames, pings are answered, pongs ignored, and a close, an error or the
/// end of the stream stop the loop.
pub fn receive_step(incoming: Incoming) -> (r: ReceiveStep)
    ensures
        r == match incoming {
            Incoming::Message(Opcode::Ping) => ReceiveStep::ReplyPong,
            Incoming::Message(Opcode::Binary) => ReceiveStep::Dispatch,
            Incoming::Message(Opcode::Text) => ReceiveStep::Dispatch,
            Incoming::Message(Opcode::Pong) => ReceiveStep::Ignore,
            Incoming::Message(Opcode::Close) => ReceiveStep::Stop,
            Incoming::Failed => ReceiveStep::Stop,
            Incoming::Ended => ReceiveStep::Stop,
        },
{
    match incoming {
        Incoming::Message(Opcode::Ping) => ReceiveStep::ReplyPong,
        Incoming::Message(Opcode::Binary) | Incoming::Message(Opcode::Text) => ReceiveStep::Dispatch,
        Incoming::Message(Opcode::Pong) => ReceiveStep::Ignore,
        Incoming::Message(Opcode::Close) | Incoming::Failed | Incoming::Ended => ReceiveStep::Stop,
    }
}

/// What the receiving loop does after the frame handler handled a frame.
#[derive(Debug, Clone, Copy, PartialEq, Eq)]
pub enum AfterFrame {
    /// Receive the next message.
    Continue,
    /// Leave the loop: the handler is gone.
    Stop,
    /// Send a close message (`close_reason`) and leave the loop: the frame
    /// did not parse.
    CloseAndStop,
}

/// The receiving loop's step after handling a frame.
pub fn after_frame(result: Result<(), FrameError>) -> (r: AfterFrame)
    ensures
        r == match result {
            Ok(()) => AfterFrame::Continue,
            Err(FrameError::HandlerGone) => AfterFrame::Stop,
            Err(FrameError::ParseError) => AfterFrame::CloseAndStop,
        },
{
    match result {
        Ok(()) => AfterFrame::Continue,
        Err(FrameError::HandlerGone) => AfterFrame::Stop,
        Err(FrameError::ParseError) => AfterFrame::CloseAndStop,
    }
}

/// The status code and reason of the close message sent for a frame that
/// does not parse.
pub fn close_reason() -> (r: (u16, &'static str))
    ensures
        r.0 == 1,
        r.1@ == "Unable to parse frame"@,
{
    (1, "Unable to parse frame")
}

} // verus!
