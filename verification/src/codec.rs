//! The codec of the messages: one way in and one way out for every
//! message that the library writes or reads.
//!
//! A message is written from its fields alone. A message is read against
//! the shape that is expected: the text must be well formed, the element of
//! the expected answer must be there, and a text field that is asked for
//! must be found.

use crate::document::{document_of, DecodeError, Document, Node};
use crate::probe::{discovery_text, Envelope, ProbeType};
use crate::probe_match::{read_response, response_of, ResponseView};
use crate::response::{
    field_of, hardware_address_of, hostname_path, profile_tokens_of, read_hardware_address,
    read_hostname, read_profile_tokens, read_scopes, read_serial_number, read_services,
    read_stream_uri, scopes_of, serial_number_path, service_views, services_of, stream_uri_path,
    Service,
};
use crate::soap::Operation;
use vstd::prelude::*;

verus! {

/// A message that the library writes.
#[derive(Debug)]
pub enum Request {
    /// The probe for devices of the category `kind` under the correlation
    /// token `message_id`.
    Probe { message_id: String, kind: ProbeType },
    /// A query of a device. `token` is the profile token of a stream query.
    Query { operation: Operation, token: String },
}

/// The text of a message that the library writes.
pub open spec fn request_text(request: Request) -> Seq<char> {
    match request {
        Request::Probe { message_id, kind } => discovery_text(message_id@, kind),
        Request::Query { operation, token } => operation.envelope(token@),
    }
}

/// Writes a message. The text depends on the fields of the message alone:
/// the same message is written the same way every time.
pub fn encode(request: &Request) -> (r: String)
    ensures
        r@ == request_text(*request),
{
    match request {
        Request::Probe { message_id, kind } => Envelope::probe(message_id.as_str(), *kind).encode(),
        Request::Query { operation, token } => operation.encode(token.as_str()),
    }
}

/// The shape of a message that the library reads.
#[derive(Clone, Copy, Debug, PartialEq, Eq, Structural)]
pub enum Shape {
    ProbeMatches,
    Services,
    DeviceInformation,
    NetworkInterfaces,
    Hostname,
    Scopes,
    Profiles,
    StreamUri,
}

/// What a message holds that was read.
#[derive(Debug)]
pub enum Message {
    /// The answers to a probe.
    ProbeMatches(crate::probe_match::Envelope),
    /// The services of a device.
    Services(Vec<Service>),
    /// The serial number of a device.
    SerialNumber(String),
    /// The hardware address of the first interface of a device.
    HardwareAddress(String),
    /// The name of a device.
    Hostname(String),
    /// The scopes of a device.
    Scopes(Vec<String>),
    /// The tokens of the profiles of a device.
    ProfileTokens(Vec<String>),
    /// The address of a stream.
    StreamUri(String),
}

/// A message as contracts see it.
pub enum MessageView {
    ProbeMatches(ResponseView),
    Services(Seq<(Seq<char>, Seq<char>)>),
    SerialNumber(Seq<char>),
    HardwareAddress(Seq<char>),
    Hostname(Seq<char>),
    Scopes(Seq<Seq<char>>),
    ProfileTokens(Seq<Seq<char>>),
    StreamUri(Seq<char>),
}

impl View for Message {
    type V = MessageView;

    open spec fn view(&self) -> MessageView {
        match self {
            Message::ProbeMatches(e) => MessageView::ProbeMatches(e@),
            Message::Services(s) => MessageView::Services(service_views(s@)),
            Message::SerialNumber(t) => MessageView::SerialNumber(t@),
            Message::HardwareAddress(t) => MessageView::HardwareAddress(t@),
            Message::Hostname(t) => MessageView::Hostname(t@),
            Message::Scopes(s) => MessageView::Scopes(s.deep_view()),
            Message::ProfileTokens(s) => MessageView::ProfileTokens(s.deep_view()),
            Message::StreamUri(t) => MessageView::StreamUri(t@),
        }
    }
}

/// What a document holds, read against a shape.
pub open spec fn message_of(nodes: Seq<Node>, shape: Shape) -> Result<MessageView, DecodeError> {
    match shape {
        Shape::ProbeMatches => match response_of(nodes) {
            Ok(r) => Ok(MessageView::ProbeMatches(r)),
            Err(e) => Err(e),
        },
        Shape::Services => match services_of(nodes) {
            Ok(s) => Ok(MessageView::Services(s)),
            Err(e) => Err(e),
        },
        Shape::DeviceInformation => match field_of(nodes, serial_number_path()) {
            Ok(t) => Ok(MessageView::SerialNumber(t)),
            Err(e) => Err(e),
        },
        Shape::NetworkInterfaces => match hardware_address_of(nodes) {
            Ok(t) => Ok(MessageView::HardwareAddress(t)),
            Err(e) => Err(e),
        },
        Shape::Hostname => match field_of(nodes, hostname_path()) {
            Ok(t) => Ok(MessageView::Hostname(t)),
            Err(e) => Err(e),
        },
        Shape::Scopes => match scopes_of(nodes) {
            Ok(s) => Ok(MessageView::Scopes(s)),
            Err(e) => Err(e),
        },
        Shape::Profiles => match profile_tokens_of(nodes) {
            Ok(s) => Ok(MessageView::ProfileTokens(s)),
            Err(e) => Err(e),
        },
        Shape::StreamUri => match field_of(nodes, stream_uri_path()) {
            Ok(t) => Ok(MessageView::StreamUri(t)),
            Err(e) => Err(e),
        },
    }
}

/// What a text holds, read against a shape, or why it cannot be read so.
pub open spec fn decoded_as(text: Seq<char>, shape: Shape) -> Result<MessageView, DecodeError> {
    match document_of(text) {
        None => Err(DecodeError::MalformedXml),
        Some(nodes) => message_of(nodes, shape),
    }
}

/// Reads a document against a shape.
pub fn read_message(doc: &Document, shape: Shape) -> (r: Result<Message, DecodeError>)
    ensures
        match r {
            Ok(m) => message_of(doc@, shape) == Ok::<MessageView, DecodeError>(m@),
            Err(e) => message_of(doc@, shape) == Err::<MessageView, DecodeError>(e),
        },
{
    match shape {
        Shape::ProbeMatches => match read_response(doc) {
            Ok(e) => Ok(Message::ProbeMatches(e)),
            Err(e) => Err(e),
        },
        Shape::Services => match read_services(doc) {
            Ok(s) => Ok(Message::Services(s)),
            Err(e) => Err(e),
        },
        Shape::DeviceInformation => match read_serial_number(doc) {
            Ok(t) => Ok(Message::SerialNumber(t)),
            Err(e) => Err(e),
        },
        Shape::NetworkInterfaces => match read_hardware_address(doc) {
            Ok(t) => Ok(Message::HardwareAddress(t)),
            Err(e) => Err(e),
        },
        Shape::Hostname => match read_hostname(doc) {
            Ok(t) => Ok(Message::Hostname(t)),
            Err(e) => Err(e),
        },
        Shape::Scopes => match read_scopes(doc) {
            Ok(s) => Ok(Message::Scopes(s)),
            Err(e) => Err(e),
        },
        Shape::Profiles => match read_profile_tokens(doc) {
            Ok(s) => Ok(Message::ProfileTokens(s)),
            Err(e) => Err(e),
        },
        Shape::StreamUri => match read_stream_uri(doc) {
            Ok(t) => Ok(Message::StreamUri(t)),
            Err(e) => Err(e),
        },
    }
}

/// Reads a text against a shape. The text is malformed where it is no
/// well-formed document; its shape is unexpected where the element of the
/// expected answer, or an attribute that the answer must have, is absent;
/// a field is not found where a text field of the answer is absent.
pub fn decode(text: &str, shape: Shape) -> (r: Result<Message, DecodeError>)
    ensures
        match r {
            Ok(m) => decoded_as(text@, shape) == Ok::<MessageView, DecodeError>(m@),
            Err(e) => decoded_as(text@, shape) == Err::<MessageView, DecodeError>(e),
        },
{
    match Document::parse(text) {
        Err(e) => Err(e),
        Ok(doc) => read_message(&doc, shape),
    }
}

} // verus!
