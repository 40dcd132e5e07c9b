//! Discovery of network video devices over WS-Discovery, and the rules of the
//! SOAP queries that describe a discovered device.
//!
//! The crate holds no socket and no clock: callers perform the network
//! operations and report their outcome; every decision is taken here.
//!
//! - `probe`, `probe_match` and `codec` write and read the messages;
//!   `document`, `query`, `markup`, `scan` and `entity` are the XML reader
//!   beneath them, and `written` shows that it reads what is written.
//! - `round` and `session` are the discovery engine, `device_set` the
//!   devices that a round finds, `token` the correlation tokens, and
//!   `transport` what the socket is set up with.
//! - `soap` and `response` are the requests and answers of the device
//!   queries, `http` their form on the wire, `pipeline` their order,
//!   `descriptor` what they fill, and `fingerprint` the identifier of a
//!   device.

pub mod codec;
pub mod descriptor;
pub mod device_set;
pub mod document;
pub mod entity;
pub mod fingerprint;
pub mod http;
pub mod markup;
pub mod pipeline;
pub mod probe;
pub mod probe_match;
pub mod query;
mod reader;
pub mod response;
pub mod round;
pub mod scan;
pub mod session;
pub mod soap;
pub mod text;
pub mod token;
pub mod transport;
pub mod written;
