//! The error taxonomy: every fallible operation of the library reports one of
//! two error kinds, one for request construction and connection setup, one for
//! failures of an established stream.

use vstd::prelude::*;

verus! {

/// The underlying condition that an [`Error`] reports.
#[derive(Clone, Copy, Debug, PartialEq, Eq, Structural)]
pub enum ErrorCause {
    /// The URL handed to the builder could not be parsed.
    InvalidUrl,
    /// A header value holds a character that is not legal in an HTTP header.
    InvalidHeaderValue,
    /// The stored resumption id cannot be sent as an HTTP header value.
    InvalidLastEventId,
    /// The server answered with a non-success HTTP status (the payload).
    UnexpectedStatus(u16),
    /// The transport failed while connecting or while reading the body.
    Transport,
    /// An `id` field arrived whose bytes are not valid UTF-8.
    InvalidEventId,
}

/// An error surfaced to the consumer of an event stream. Once one is
/// surfaced, the stream must not be advanced again.
#[derive(Clone, Copy, Debug, PartialEq, Eq, Structural)]
pub enum Error {
    /// Request construction or connection setup failed: an invalid header
    /// value, an invalid URL, or a non-success HTTP status.
    HttpRequest(ErrorCause),
    /// An established stream failed: the transport broke while awaiting the
    /// response or while reading its body, or the body carried an `id` field
    /// that is not valid UTF-8.
    HttpStream(ErrorCause),
}

} // verus!
