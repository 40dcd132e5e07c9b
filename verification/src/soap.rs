//! The requests of the device queries: which operation goes to which
//! service, under which action, with which envelope.
//!
//! The library builds the request; the caller posts it and reports the
//! outcome.

use crate::entity::escape;
use crate::probe::append_escaped;
use crate::text::{append_decimal, append_str, chars_of, decimal_of, string_of};
use vstd::prelude::*;

verus! {

/// The port on which devices take queries, unless configured otherwise.
pub const CONTROL_PORT: u16 = 8899;

/// The path of the device-management service, unless configured otherwise.
pub const DEVICE_SERVICE_PATH: &'static str = "onvif/device_service";

/// The path of the media service, unless configured otherwise.
pub const MEDIA_SERVICE_PATH: &'static str = "onvif/Media";

/// The namespace of the device-management service.
pub const DEVICE_NAMESPACE: &'static str = "http://www.onvif.org/ver10/device/wsdl";

/// The namespace of the media service.
pub const MEDIA_NAMESPACE: &'static str = "http://www.onvif.org/ver10/media/wsdl";

/// How every request envelope starts.
pub const REQUEST_HEAD: &'static str =
    "<?xml version=\"1.0\" encoding=\"utf-8\"?><s:Envelope xmlns:s=\"http://www.w3.org/2003/05/soap-envelope\"><s:Body>";

/// How every request envelope ends.
pub const REQUEST_TAIL: &'static str = "</s:Body></s:Envelope>";

/// The payload of `GetServices`.
pub const GET_SERVICES: &'static str =
    "<tds:GetServices xmlns:tds=\"http://www.onvif.org/ver10/device/wsdl\"><tds:IncludeCapability>false</tds:IncludeCapability></tds:GetServices>";

/// The payload of `GetDeviceInformation`.
pub const GET_DEVICE_INFORMATION: &'static str =
    "<tds:GetDeviceInformation xmlns:tds=\"http://www.onvif.org/ver10/device/wsdl\"/>";

/// The payload of `GetNetworkInterfaces`.
pub const GET_NETWORK_INTERFACES: &'static str =
    "<tds:GetNetworkInterfaces xmlns:tds=\"http://www.onvif.org/ver10/device/wsdl\"/>";

/// The payload of `GetHostname`.
pub const GET_HOSTNAME: &'static str =
    "<tds:GetHostname xmlns:tds=\"http://www.onvif.org/ver10/device/wsdl\"/>";

/// The payload of `GetScopes`.
pub const GET_SCOPES: &'static str =
    "<tds:GetScopes xmlns:tds=\"http://www.onvif.org/ver10/device/wsdl\"/>";

/// The payload of `GetProfiles`.
pub const GET_PROFILES: &'static str =
    "<trt:GetProfiles xmlns:trt=\"http://www.onvif.org/ver10/media/wsdl\"/>";

/// The stream query up to the profile token.
pub const GET_STREAM_URI_HEAD: &'static str =
    "<trt:GetStreamUri xmlns:trt=\"http://www.onvif.org/ver10/media/wsdl\" xmlns:tt=\"http://www.onvif.org/ver10/schema\"><trt:StreamSetup><tt:Stream>RTP-Unicast</tt:Stream><tt:Transport><tt:Protocol>RTSP</tt:Protocol></tt:Transport></trt:StreamSetup><trt:ProfileToken>";

/// The stream query behind the profile token.
pub const GET_STREAM_URI_TAIL: &'static str = "</trt:ProfileToken></trt:GetStreamUri>";

/// The action of `GetServices`.
pub const ACTION_GET_SERVICES: &'static str = "http://www.onvif.org/ver10/device/wsdl/GetServices";

/// The action of `GetDeviceInformation`.
pub const ACTION_GET_DEVICE_INFORMATION: &'static str =
    "http://www.onvif.org/ver10/device/wsdl/GetDeviceInformation";

/// The action of `GetNetworkInterfaces`.
pub const ACTION_GET_NETWORK_INTERFACES: &'static str =
    "http://www.onvif.org/ver10/device/wsdl/GetNetworkInterfaces";

/// The action of `GetHostname`.
pub const ACTION_GET_HOSTNAME: &'static str = "http://www.onvif.org/ver10/device/wsdl/GetHostname";

/// The action of `GetScopes`.
pub const ACTION_GET_SCOPES: &'static str = "http://www.onvif.org/ver10/device/wsdl/GetScopes";

/// The action of `GetProfiles`.
pub const ACTION_GET_PROFILES: &'static str = "http://www.onvif.org/ver10/media/wsdl/GetProfiles";

/// The action of `GetStreamUri`.
pub const ACTION_GET_STREAM_URI: &'static str = "http://www.onvif.org/ver10/media/wsdl/GetStreamUri";

/// How the content type starts, up to the action.
pub const CONTENT_TYPE_HEAD: &'static str = "application/soap+xml; charset=utf-8; action=\"";

/// How the content type ends.
pub const CONTENT_TYPE_TAIL: &'static str = "\"";

/// A query that a device answers.
#[derive(Clone, Copy, Debug, PartialEq, Eq, Structural)]
pub enum Operation {
    GetServices,
    GetDeviceInformation,
    GetNetworkInterfaces,
    GetHostname,
    GetScopes,
    GetProfiles,
    GetStreamUri,
}

impl Operation {
    /// Whether the media service answers this query; the device-management
    /// service answers the others.
    pub open spec fn is_media(self) -> bool {
        self == Operation::GetProfiles || self == Operation::GetStreamUri
    }

    /// Whether the media service answers this query.
    pub fn asks_media(self) -> (b: bool)
        ensures
            b == self.is_media(),
    {
        match self {
            Operation::GetProfiles => true,
            Operation::GetStreamUri => true,
            _ => false,
        }
    }

    /// The action by which the server tells the operations apart.
    pub open spec fn action(self) -> Seq<char> {
        match self {
            Operation::GetServices => ACTION_GET_SERVICES@,
            Operation::GetDeviceInformation => ACTION_GET_DEVICE_INFORMATION@,
            Operation::GetNetworkInterfaces => ACTION_GET_NETWORK_INTERFACES@,
            Operation::GetHostname => ACTION_GET_HOSTNAME@,
            Operation::GetScopes => ACTION_GET_SCOPES@,
            Operation::GetProfiles => ACTION_GET_PROFILES@,
            Operation::GetStreamUri => ACTION_GET_STREAM_URI@,
        }
    }

    /// The action by which the server tells the operations apart.
    pub fn action_uri(self) -> (r: &'static str)
        ensures
            r@ == self.action(),
    {
        match self {
            Operation::GetServices => ACTION_GET_SERVICES,
            Operation::GetDeviceInformation => ACTION_GET_DEVICE_INFORMATION,
            Operation::GetNetworkInterfaces => ACTION_GET_NETWORK_INTERFACES,
            Operation::GetHostname => ACTION_GET_HOSTNAME,
            Operation::GetScopes => ACTION_GET_SCOPES,
            Operation::GetProfiles => ACTION_GET_PROFILES,
            Operation::GetStreamUri => ACTION_GET_STREAM_URI,
        }
    }

    /// The payload of the request. Only the stream query takes a value: the
    /// profile token, written as character data.
    pub open spec fn payload(self, token: Seq<char>) -> Seq<char> {
        match self {
            Operation::GetServices => GET_SERVICES@,
            Operation::GetDeviceInformation => GET_DEVICE_INFORMATION@,
            Operation::GetNetworkInterfaces => GET_NETWORK_INTERFACES@,
            Operation::GetHostname => GET_HOSTNAME@,
            Operation::GetScopes => GET_SCOPES@,
            Operation::GetProfiles => GET_PROFILES@,
            Operation::GetStreamUri => GET_STREAM_URI_HEAD@ + escape(token) + GET_STREAM_URI_TAIL@,
        }
    }

    /// The envelope of the request.
    pub open spec fn envelope(self, token: Seq<char>) -> Seq<char> {
        REQUEST_HEAD@ + self.payload(token) + REQUEST_TAIL@
    }

    /// Writes the envelope of the request. `token` is the profile token of
    /// a stream query; the other operations take no value.
    pub fn encode(self, token: &str) -> (r: String)
        ensures
            r@ == self.envelope(token@),
    {
        let mut out: Vec<char> = Vec::new();
        append_str(&mut out, REQUEST_HEAD);
        let ghost front = out@;
        match self {
            Operation::GetServices => append_str(&mut out, GET_SERVICES),
            Operation::GetDeviceInformation => append_str(&mut out, GET_DEVICE_INFORMATION),
            Operation::GetNetworkInterfaces => append_str(&mut out, GET_NETWORK_INTERFACES),
            Operation::GetHostname => append_str(&mut out, GET_HOSTNAME),
            Operation::GetScopes => append_str(&mut out, GET_SCOPES),
            Operation::GetProfiles => append_str(&mut out, GET_PROFILES),
            Operation::GetStreamUri => {
                append_str(&mut out, GET_STREAM_URI_HEAD);
                append_escaped(&mut out, token);
                append_str(&mut out, GET_STREAM_URI_TAIL);
                assert(out@ =~= front + self.payload(token@));
            },
        }
        append_str(&mut out, REQUEST_TAIL);
        string_of(&out)
    }
}

/// Where the queries of a device go.
#[derive(Debug)]
pub struct Endpoints {
    /// The port on which the device takes queries.
    pub port: u16,
    /// The path of the device-management service.
    pub device_path: String,
    /// The path of the media service.
    pub media_path: String,
}

impl Endpoints {
    /// The conventional endpoints: port 8899, `onvif/device_service` and
    /// `onvif/Media`.
    pub fn conventional() -> (r: Endpoints)
        ensures
            r.port == CONTROL_PORT,
            r.device_path@ == DEVICE_SERVICE_PATH@,
            r.media_path@ == MEDIA_SERVICE_PATH@,
    {
        Endpoints {
            port: CONTROL_PORT,
            device_path: string_of(&chars_of(DEVICE_SERVICE_PATH)),
            media_path: string_of(&chars_of(MEDIA_SERVICE_PATH)),
        }
    }

    /// The path of the service that answers `operation`.
    pub open spec fn path_of(&self, operation: Operation) -> Seq<char> {
        if operation.is_media() {
            self.media_path@
        } else {
            self.device_path@
        }
    }
}

/// The address that a query is posted to:
/// `http://<base address>:<port>/<service path>`.
pub open spec fn url_of(base_address: Seq<char>, port: u16, path: Seq<char>) -> Seq<char> {
    "http://"@ + base_address + ":"@ + decimal_of(port as nat) + "/"@ + path
}

/// The content type of a query: SOAP over XML in UTF-8, with the action.
pub open spec fn content_type_of(action: Seq<char>) -> Seq<char> {
    CONTENT_TYPE_HEAD@ + action + CONTENT_TYPE_TAIL@
}

/// One POST request. The connection is closed after the response.
#[derive(Debug)]
pub struct HttpRequest {
    /// The address that the request is posted to.
    pub url: String,
    /// The host part of `url`: the base address of the device.
    pub host: String,
    /// The port part of `url`.
    pub port: u16,
    /// The path part of `url`, without the leading `/`.
    pub path: String,
    pub content_type: String,
    /// Whether the server is asked to close the connection: always.
    pub connection_close: bool,
    pub body: String,
}

/// The address that a query is posted to.
pub fn request_url(base_address: &str, port: u16, path: &str) -> (r: String)
    ensures
        r@ == url_of(base_address@, port, path@),
{
    let mut out: Vec<char> = Vec::new();
    append_str(&mut out, "http://");
    append_str(&mut out, base_address);
    append_str(&mut out, ":");
    append_decimal(&mut out, port as u64);
    append_str(&mut out, "/");
    append_str(&mut out, path);
    assert(out@ =~= url_of(base_address@, port, path@));
    string_of(&out)
}

/// The content type of a query with the given action.
pub fn content_type(action: &str) -> (r: String)
    ensures
        r@ == content_type_of(action@),
{
    let mut out: Vec<char> = Vec::new();
    append_str(&mut out, CONTENT_TYPE_HEAD);
    append_str(&mut out, action);
    append_str(&mut out, CONTENT_TYPE_TAIL);
    assert(out@ =~= content_type_of(action@));
    string_of(&out)
}

/// The request that carries `operation` to the device at `base_address`.
/// `token` is the profile token of a stream query.
pub fn post(base_address: &str, operation: Operation, token: &str, endpoints: &Endpoints) -> (r:
    HttpRequest)
    ensures
        r.url@ == url_of(base_address@, endpoints.port, endpoints.path_of(operation)),
        r.host@ == base_address@,
        r.port == endpoints.port,
        r.path@ == endpoints.path_of(operation),
        r.content_type@ == content_type_of(operation.action()),
        r.connection_close,
        r.body@ == operation.envelope(token@),
{
    let path = if operation.asks_media() {
        endpoints.media_path.as_str()
    } else {
        endpoints.device_path.as_str()
    };
    HttpRequest {
        url: request_url(base_address, endpoints.port, path),
        host: string_of(&chars_of(base_address)),
        port: endpoints.port,
        path: string_of(&chars_of(path)),
        content_type: content_type(operation.action_uri()),
        connection_close: true,
        body: operation.encode(token),
    }
}

} // verus!
