//! A client library for consuming Server-Sent-Events (SSE) streams over HTTP.
//!
//! The verified core of the library lives here: the reconnect policy and its
//! backoff arithmetic, the error taxonomy, the SSE byte-stream parser with its
//! event data model, the client configuration, and the reconnecting-request
//! state machine expressed as a step function from the current state and an
//! observed transport event to the next state and the action the transport
//! driver must take. The driver that owns the actual HTTP connections, bodies
//! and timers calls into this core and performs the I/O it is told to.

mod client;
mod config;
mod errors;
mod event_parser;

pub use client::check_header_name;
pub use client::check_header_value_bytes;
pub use client::check_header_value_str;
pub use client::Client;
pub use client::ClientBuilder;
pub use client::Header;
pub use client::HeaderModel;
pub use client::OutgoingRequest;
pub use client::OutgoingRequestModel;
pub use client::ReconnectingRequest;
pub use client::RequestProps;
pub use client::RequestPropsModel;
pub use client::State;
pub use client::StreamAction;
pub use client::StreamEvent;
pub use config::ReconnectOptions;
pub use config::ReconnectOptionsBuilder;
pub use errors::Error;
pub use errors::ErrorCause;
pub use event_parser::Event;
pub use event_parser::EventModel;
pub use event_parser::EventParser;
pub use event_parser::ParserModel;
