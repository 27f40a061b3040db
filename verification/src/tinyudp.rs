//! One datagram out, one datagram back, or a reason why not.
//!
//! An exchange binds a socket, sends one message and waits for one reply
//! until a deadline. The socket is the caller's business. This module knows
//! the order of the steps and what each outcome means: the caller takes the
//! step that the exchange waits for, reports what came of it, and is told
//! whether to go on or what the exchange ended with.

use std::time::Duration;
use vstd::math::min;
use vstd::prelude::*;
use vstd::string::to_string_from_display_ensures;

verus! {

/// `std::io::Error`, which an exchange hands on without looking inside.
#[verifier::external_type_specification]
#[verifier::external_body]
pub struct ExIoError(std::io::Error);

/// Why an exchange ended without a reply.
#[derive(Debug)]
pub enum TinyudpError {
    /// No local socket could be had.
    BindFailed(std::io::Error),
    /// The message did not leave, or its target could not be resolved.
    SendFailed(std::io::Error),
    /// Waiting for the reply ended with an error of the system.
    ReceiveFailed(std::io::Error),
    /// The deadline passed before a reply came.
    TimeoutReached,
}

/// How long to wait for the reply, and how many bytes of it to take.
#[derive(Debug, Clone, Copy)]
pub struct Options {
    pub timeout: Duration,
    pub buffer_size: usize,
}

/// The step that an exchange waits for.
#[derive(Debug, Clone, Copy, PartialEq, Eq, Structural)]
pub enum Step {
    /// Bind a socket to an unspecified local address and any free port.
    Bind,
    /// Send the message to the target.
    Send,
    /// Wait for a datagram from anyone, no longer than `Options::timeout`,
    /// into the buffer that `Exchange::receive_buffer` gives.
    Receive,
}

/// What came of a step.
#[derive(Debug)]
pub enum Event {
    /// The socket is bound.
    Bound,
    /// The message has left.
    Sent,
    /// A datagram arrived: its first `bytes_read` bytes are at the front of
    /// `buffer`.
    Received { buffer: Vec<u8>, bytes_read: usize },
    /// The deadline passed while waiting for a datagram.
    TimedOut,
    /// The step ended with an error of the system.
    Failed(std::io::Error),
}

/// An exchange under way.
#[derive(Debug)]
pub struct Exchange {
    pub awaiting: Step,
    pub options: Options,
}

/// Where an exchange stands after an event.
#[derive(Debug)]
pub enum Progress {
    /// There is a step to take.
    Next(Exchange),
    /// The exchange is over, with the reply or the reason why there is none.
    Done(Result<Vec<u8>, TinyudpError>),
}

/// The reply that a buffer holds: the bytes that were read into it, no more
/// than the buffer has and no more than `limit`.
pub open spec fn reply_in(buffer: Seq<u8>, bytes_read: int, limit: int) -> Seq<u8> {
    buffer.take(min(min(bytes_read, buffer.len() as int), limit))
}

/// An event tells of the step that the exchange waits for.
pub open spec fn answers(awaiting: Step, event: Event) -> bool {
    match (awaiting, event) {
        (Step::Bind, Event::Bound) => true,
        (Step::Send, Event::Sent) => true,
        (Step::Receive, Event::Received { .. }) => true,
        (Step::Receive, Event::TimedOut) => true,
        (_, Event::Failed(_)) => true,
        _ => false,
    }
}

/// `text` is `headline` followed by what `cause` says of itself.
pub open spec fn headed(headline: Seq<char>, cause: &std::io::Error, text: Seq<char>) -> bool {
    exists|detail: String| #[trigger]
        to_string_from_display_ensures(cause, detail) && text == headline + detail@
}

impl TinyudpError {
    /// The words that say which step failed.
    pub open spec fn headline(&self) -> Seq<char> {
        match self {
            TinyudpError::BindFailed(_) => "failed to bind socket: "@,
            TinyudpError::SendFailed(_) => "failed to send message: "@,
            TinyudpError::ReceiveFailed(_) => "failed to receive message: "@,
            TinyudpError::TimeoutReached => "timeout reached while waiting for response"@,
        }
    }

    /// `text` describes this error: the headline, followed by what the
    /// system's error says of itself where there is one.
    pub open spec fn described_by(&self, text: Seq<char>) -> bool {
        match self {
            TinyudpError::BindFailed(cause) => headed(self.headline(), cause, text),
            TinyudpError::SendFailed(cause) => headed(self.headline(), cause, text),
            TinyudpError::ReceiveFailed(cause) => headed(self.headline(), cause, text),
            TinyudpError::TimeoutReached => text == self.headline(),
        }
    }

    /// The error in words.
    pub fn to_string(&self) -> (text: String)
        ensures
            self.described_by(text@),
    {
        match self {
            TinyudpError::BindFailed(cause) => {
                let detail = cause.to_string();
                String::from_str("failed to bind socket: ").concat(detail.as_str())
            },
            TinyudpError::SendFailed(cause) => {
                let detail = cause.to_string();
                String::from_str("failed to send message: ").concat(detail.as_str())
            },
            TinyudpError::ReceiveFailed(cause) => {
                let detail = cause.to_string();
                String::from_str("failed to receive message: ").concat(detail.as_str())
            },
            TinyudpError::TimeoutReached => String::from_str(
                "timeout reached while waiting for response",
            ),
        }
    }
}

impl Exchange {
    /// An exchange that has taken no step yet: it waits for the socket.
    pub fn new(options: Options) -> (exchange: Exchange)
        ensures
            exchange.awaiting == Step::Bind,
            exchange.options == options,
    {
        Exchange { awaiting: Step::Bind, options }
    }

    /// The buffer to receive into: `Options::buffer_size` zero bytes.
    pub fn receive_buffer(&self) -> (buffer: Vec<u8>)
        ensures
            buffer@ == Seq::new(self.options.buffer_size as nat, |i: int| 0u8),
    {
        vec![0u8; self.options.buffer_size]
    }

    /// Takes in what came of a step.
    ///
    /// An event that tells of another step than the one waited for changes
    /// nothing. A failure ends the exchange with the error of the step that
    /// failed, a passed deadline with `TimeoutReached`, and a datagram with
    /// the reply: the bytes that were read, cut to the size of the buffer.
    pub fn advance(self, event: Event) -> (progress: Progress)
        ensures
            !answers(self.awaiting, event) ==> progress == Progress::Next(self),
            match (self.awaiting, event) {
                (Step::Bind, Event::Bound) => progress == Progress::Next(
                    Exchange { awaiting: Step::Send, options: self.options },
                ),
                (Step::Send, Event::Sent) => progress == Progress::Next(
                    Exchange { awaiting: Step::Receive, options: self.options },
                ),
                (Step::Receive, Event::Received { buffer, bytes_read }) => {
                    &&& progress matches Progress::Done(Ok(reply))
                    &&& reply@ == reply_in(
                        buffer@,
                        bytes_read as int,
                        self.options.buffer_size as int,
                    )
                },
                (Step::Receive, Event::TimedOut) => progress == Progress::Done(
                    Err(TinyudpError::TimeoutReached),
                ),
                (Step::Bind, Event::Failed(cause)) => progress == Progress::Done(
                    Err(TinyudpError::BindFailed(cause)),
                ),
                (Step::Send, Event::Failed(cause)) => progress == Progress::Done(
                    Err(TinyudpError::SendFailed(cause)),
                ),
                (Step::Receive, Event::Failed(cause)) => progress == Progress::Done(
                    Err(TinyudpError::ReceiveFailed(cause)),
                ),
                _ => true,
            },
    {
        match (self.awaiting, event) {
            (Step::Bind, Event::Bound) => Progress::Next(
                Exchange { awaiting: Step::Send, options: self.options },
            ),
            (Step::Send, Event::Sent) => Progress::Next(
                Exchange { awaiting: Step::Receive, options: self.options },
            ),
            (Step::Receive, Event::Received { buffer, bytes_read }) => {
                let mut reply = buffer;
                reply.truncate(bytes_read);
                reply.truncate(self.options.buffer_size);
                Progress::Done(Ok(reply))
            },
            (Step::Receive, Event::TimedOut) => Progress::Done(Err(TinyudpError::TimeoutReached)),
            (Step::Bind, Event::Failed(cause)) => Progress::Done(
                Err(TinyudpError::BindFailed(cause)),
            ),
            (Step::Send, Event::Failed(cause)) => Progress::Done(
                Err(TinyudpError::SendFailed(cause)),
            ),
            (Step::Receive, Event::Failed(cause)) => Progress::Done(
                Err(TinyudpError::ReceiveFailed(cause)),
            ),
            _ => Progress::Next(self),
        }
    }
}

} // verus!
