//! The answers to the device queries: what the outcome of a request means,
//! and what each answer holds.

use crate::document::{attribute_value, document_of, DecodeError, Document, Node};
use crate::query::{
    ascending_below, children, children_of, first_text, first_text_of, select, select_all,
    select_texts, str_names, texts_of,
};
use crate::text::{same_text, string_of};
use vstd::prelude::*;

verus! {

/// How a request ended, as the caller reports it.
#[derive(Debug)]
pub enum HttpOutcome {
    /// The server answered with this body, whatever the status.
    Body(String),
    /// No answer came within the time allowed for the request.
    TimedOut,
    /// The connection failed or what came was no HTTP.
    Failed,
}

/// Why a query has no answer.
#[derive(Debug)]
pub enum SoapError {
    /// The transport failed.
    HttpError,
    /// No answer came in time.
    RequestTimeout,
    /// The answer could not be decoded.
    Decode(DecodeError),
    /// The device answered with a fault; this is its text.
    RemoteFault(String),
}

/// An error as contracts see it.
pub enum SoapFailure {
    HttpError,
    RequestTimeout,
    Decode(DecodeError),
    RemoteFault(Seq<char>),
}

impl View for SoapError {
    type V = SoapFailure;

    open spec fn view(&self) -> SoapFailure {
        match self {
            SoapError::HttpError => SoapFailure::HttpError,
            SoapError::RequestTimeout => SoapFailure::RequestTimeout,
            SoapError::Decode(e) => SoapFailure::Decode(*e),
            SoapError::RemoteFault(text) => SoapFailure::RemoteFault(text@),
        }
    }
}

/// The path of a fault.
pub open spec fn fault_path() -> Seq<Seq<char>> {
    seq!["Envelope"@, "Body"@, "Fault"@]
}

/// The path of the reason of a fault.
pub open spec fn fault_reason_path() -> Seq<Seq<char>> {
    seq!["Envelope"@, "Body"@, "Fault"@, "Reason"@, "Text"@]
}

/// The path of the reason of a fault as older devices write it.
pub open spec fn fault_string_path() -> Seq<Seq<char>> {
    seq!["Envelope"@, "Body"@, "Fault"@, "faultstring"@]
}

/// The text of the fault that a document holds: its first reason, else its
/// first fault string, else nothing.
pub open spec fn fault_text(nodes: Seq<Node>) -> Seq<char> {
    let reasons = select_all(nodes, fault_reason_path());
    if reasons.len() > 0 {
        nodes[reasons[0] as int].text
    } else {
        first_text_of(nodes, select_all(nodes, fault_string_path()))
    }
}

/// What the outcome of a request means: the document that came, or the
/// error. A body that holds a fault is the device's refusal, not an answer.
pub open spec fn answer_of(outcome: HttpOutcome) -> Result<Seq<Node>, SoapFailure> {
    match outcome {
        HttpOutcome::TimedOut => Err(SoapFailure::RequestTimeout),
        HttpOutcome::Failed => Err(SoapFailure::HttpError),
        HttpOutcome::Body(text) => match document_of(text@) {
            None => Err(SoapFailure::Decode(DecodeError::MalformedXml)),
            Some(nodes) => if select_all(nodes, fault_path()).len() > 0 {
                Err(SoapFailure::RemoteFault(fault_text(nodes)))
            } else {
                Ok(nodes)
            },
        },
    }
}

/// Reads the outcome of a request.
pub fn read_answer(outcome: &HttpOutcome) -> (r: Result<Document, SoapError>)
    ensures
        match r {
            Ok(doc) => answer_of(*outcome) == Ok::<Seq<Node>, SoapFailure>(doc@),
            Err(e) => answer_of(*outcome) == Err::<Seq<Node>, SoapFailure>(e@),
        },
{
    match outcome {
        HttpOutcome::TimedOut => Err(SoapError::RequestTimeout),
        HttpOutcome::Failed => Err(SoapError::HttpError),
        HttpOutcome::Body(text) => match Document::parse(text.as_str()) {
            Err(e) => Err(SoapError::Decode(e)),
            Ok(doc) => {
                let fault: Vec<&str> = vec!["Envelope", "Body", "Fault"];
                assert(str_names(fault@) =~= fault_path());
                if select(&doc, fault.as_slice()).len() > 0 {
                    let reason: Vec<&str> = vec!["Envelope", "Body", "Fault", "Reason", "Text"];
                    assert(str_names(reason@) =~= fault_reason_path());
                    let reasons = select(&doc, reason.as_slice());
                    if reasons.len() > 0 {
                        Err(SoapError::RemoteFault(doc.text_of(reasons[0])))
                    } else {
                        let old_form: Vec<&str> = vec!["Envelope", "Body", "Fault", "faultstring"];
                        assert(str_names(old_form@) =~= fault_string_path());
                        let strings = select(&doc, old_form.as_slice());
                        if strings.len() > 0 {
                            Err(SoapError::RemoteFault(doc.text_of(strings[0])))
                        } else {
                            let empty: Vec<char> = Vec::new();
                            Err(SoapError::RemoteFault(string_of(&empty)))
                        }
                    }
                } else {
                    Ok(doc)
                }
            },
        },
    }
}

/// A service that a device offers.
#[derive(Debug)]
pub struct Service {
    /// The namespace that tells what the service is.
    pub namespace: String,
    /// The address of the service.
    pub xaddr: String,
}

impl View for Service {
    type V = (Seq<char>, Seq<char>);

    open spec fn view(&self) -> (Seq<char>, Seq<char>) {
        (self.namespace@, self.xaddr@)
    }
}

/// The path of the answer to `GetServices`.
pub open spec fn services_path() -> Seq<Seq<char>> {
    seq!["Envelope"@, "Body"@, "GetServicesResponse"@]
}

/// The `Service` element `i`: its namespace and its address.
pub open spec fn service_of(nodes: Seq<Node>, i: int) -> (Seq<char>, Seq<char>) {
    (
        first_text_of(nodes, children_of(nodes, i, "Namespace"@)),
        first_text_of(nodes, children_of(nodes, i, "XAddr"@)),
    )
}

/// The services that an answer to `GetServices` lists, in document order.
/// The shape is unexpected where the answer element is absent.
pub open spec fn services_of(nodes: Seq<Node>) -> Result<Seq<(Seq<char>, Seq<char>)>, DecodeError> {
    let holders = select_all(nodes, services_path());
    if holders.len() == 0 {
        Err(DecodeError::UnexpectedShape)
    } else {
        let found = children_of(nodes, holders[0] as int, "Service"@);
        Ok(Seq::new(found.len(), |k: int| service_of(nodes, found[k] as int)))
    }
}

/// The address of the first of the services from `k` on with the namespace
/// `namespace`.
pub open spec fn service_address(
    services: Seq<(Seq<char>, Seq<char>)>,
    namespace: Seq<char>,
    k: int,
) -> Option<Seq<char>>
    decreases services.len() - k,
{
    if k < 0 || k >= services.len() {
        None
    } else if services[k].0 == namespace {
        Some(services[k].1)
    } else {
        service_address(services, namespace, k + 1)
    }
}

/// The services as contracts see them.
pub open spec fn service_views(services: Seq<Service>) -> Seq<(Seq<char>, Seq<char>)> {
    Seq::new(services.len(), |k: int| services[k]@)
}

/// Reads the services that an answer to `GetServices` lists.
pub fn read_services(doc: &Document) -> (r: Result<Vec<Service>, DecodeError>)
    ensures
        match r {
            Ok(v) => services_of(doc@) == Ok::<Seq<(Seq<char>, Seq<char>)>, DecodeError>(
                service_views(v@),
            ),
            Err(e) => services_of(doc@) == Err::<Seq<(Seq<char>, Seq<char>)>, DecodeError>(e),
        },
{
    let path: Vec<&str> = vec!["Envelope", "Body", "GetServicesResponse"];
    assert(str_names(path@) =~= services_path());
    let holders = select(doc, path.as_slice());
    if holders.len() == 0 {
        return Err(DecodeError::UnexpectedShape);
    }
    let found = children(doc, holders[0], "Service");
    let mut out: Vec<Service> = Vec::new();
    let mut k: usize = 0;
    while k < found.len()
        invariant
            k <= found.len(),
            out.len() == k,
            forall|j: int| 0 <= j < k ==> (#[trigger] out@[j])@ == service_of(doc@, found@[j] as int),
        decreases found.len() - k,
    {
        let namespace = crate::query::child_text(doc, found[k], "Namespace");
        let xaddr = crate::query::child_text(doc, found[k], "XAddr");
        out.push(Service { namespace, xaddr });
        k += 1;
    }
    assert(service_views(out@) =~= Seq::new(
        found@.len(),
        |k: int| service_of(doc@, found@[k] as int),
    ));
    Ok(out)
}

/// The address of the first service with the namespace `namespace`.
pub fn find_service(services: &Vec<Service>, namespace: &str) -> (r: Option<String>)
    ensures
        match r {
            Some(a) => service_address(service_views(services@), namespace@, 0) == Some(a@),
            None => service_address(service_views(services@), namespace@, 0) is None,
        },
{
    let mut k: usize = 0;
    while k < services.len()
        invariant
            k <= services.len(),
            service_address(service_views(services@), namespace@, k as int) == service_address(
                service_views(services@),
                namespace@,
                0,
            ),
        decreases services.len() - k,
    {
        assert(service_views(services@)[k as int] == services@[k as int]@);
        if same_text(services[k].namespace.as_str(), namespace) {
            return Some(services[k].xaddr.clone());
        }
        k += 1;
    }
    None
}

/// The path of the serial number in the answer to `GetDeviceInformation`.
pub open spec fn serial_number_path() -> Seq<Seq<char>> {
    seq!["Envelope"@, "Body"@, "GetDeviceInformationResponse"@, "SerialNumber"@]
}

/// The path of the name in the answer to `GetHostname`.
pub open spec fn hostname_path() -> Seq<Seq<char>> {
    seq!["Envelope"@, "Body"@, "GetHostnameResponse"@, "HostnameInformation"@, "Name"@]
}

/// The path of the address in the answer to `GetStreamUri`.
pub open spec fn stream_uri_path() -> Seq<Seq<char>> {
    seq!["Envelope"@, "Body"@, "GetStreamUriResponse"@, "MediaUri"@, "Uri"@]
}

/// The text of the first element on `path`; the field is not found where
/// there is none.
pub open spec fn field_of(nodes: Seq<Node>, path: Seq<Seq<char>>) -> Result<Seq<char>, DecodeError> {
    let found = select_all(nodes, path);
    if found.len() == 0 {
        Err(DecodeError::FieldNotFound)
    } else {
        Ok(nodes[found[0] as int].text)
    }
}

/// Reads the text of the first element on `path`.
pub fn read_field(doc: &Document, path: &[&str]) -> (r: Result<String, DecodeError>)
    ensures
        match r {
            Ok(t) => field_of(doc@, str_names(path@)) == Ok::<Seq<char>, DecodeError>(t@),
            Err(e) => field_of(doc@, str_names(path@)) == Err::<Seq<char>, DecodeError>(e),
        },
{
    first_text(doc, path)
}

/// Reads the serial number from an answer to `GetDeviceInformation`.
pub fn read_serial_number(doc: &Document) -> (r: Result<String, DecodeError>)
    ensures
        match r {
            Ok(t) => field_of(doc@, serial_number_path()) == Ok::<Seq<char>, DecodeError>(t@),
            Err(e) => field_of(doc@, serial_number_path()) == Err::<Seq<char>, DecodeError>(e),
        },
{
    let path: Vec<&str> = vec!["Envelope", "Body", "GetDeviceInformationResponse", "SerialNumber"];
    assert(str_names(path@) =~= serial_number_path());
    read_field(doc, path.as_slice())
}

/// Reads the name from an answer to `GetHostname`.
pub fn read_hostname(doc: &Document) -> (r: Result<String, DecodeError>)
    ensures
        match r {
            Ok(t) => field_of(doc@, hostname_path()) == Ok::<Seq<char>, DecodeError>(t@),
            Err(e) => field_of(doc@, hostname_path()) == Err::<Seq<char>, DecodeError>(e),
        },
{
    let path: Vec<&str> = vec![
        "Envelope",
        "Body",
        "GetHostnameResponse",
        "HostnameInformation",
        "Name",
    ];
    assert(str_names(path@) =~= hostname_path());
    read_field(doc, path.as_slice())
}

/// Reads the address from an answer to `GetStreamUri`.
pub fn read_stream_uri(doc: &Document) -> (r: Result<String, DecodeError>)
    ensures
        match r {
            Ok(t) => field_of(doc@, stream_uri_path()) == Ok::<Seq<char>, DecodeError>(t@),
            Err(e) => field_of(doc@, stream_uri_path()) == Err::<Seq<char>, DecodeError>(e),
        },
{
    let path: Vec<&str> = vec!["Envelope", "Body", "GetStreamUriResponse", "MediaUri", "Uri"];
    assert(str_names(path@) =~= stream_uri_path());
    read_field(doc, path.as_slice())
}

/// The path of the interfaces in the answer to `GetNetworkInterfaces`.
pub open spec fn interfaces_path() -> Seq<Seq<char>> {
    seq!["Envelope"@, "Body"@, "GetNetworkInterfacesResponse"@, "NetworkInterfaces"@]
}

/// The hardware address of the first interface that an answer to
/// `GetNetworkInterfaces` reports: the text of `Info`/`HwAddress` inside the
/// first `NetworkInterfaces` element. The field is not found where the
/// answer reports no interface or the first one has no such address.
pub open spec fn hardware_address_of(nodes: Seq<Node>) -> Result<Seq<char>, DecodeError> {
    let interfaces = select_all(nodes, interfaces_path());
    if interfaces.len() == 0 {
        Err(DecodeError::FieldNotFound)
    } else {
        let infos = children_of(nodes, interfaces[0] as int, "Info"@);
        if infos.len() == 0 {
            Err(DecodeError::FieldNotFound)
        } else {
            let addresses = children_of(nodes, infos[0] as int, "HwAddress"@);
            if addresses.len() == 0 {
                Err(DecodeError::FieldNotFound)
            } else {
                Ok(nodes[addresses[0] as int].text)
            }
        }
    }
}

/// Reads the hardware address of the first interface.
pub fn read_hardware_address(doc: &Document) -> (r: Result<String, DecodeError>)
    ensures
        match r {
            Ok(t) => hardware_address_of(doc@) == Ok::<Seq<char>, DecodeError>(t@),
            Err(e) => hardware_address_of(doc@) == Err::<Seq<char>, DecodeError>(e),
        },
{
    let path: Vec<&str> = vec![
        "Envelope",
        "Body",
        "GetNetworkInterfacesResponse",
        "NetworkInterfaces",
    ];
    assert(str_names(path@) =~= interfaces_path());
    let interfaces = select(doc, path.as_slice());
    if interfaces.len() == 0 {
        return Err(DecodeError::FieldNotFound);
    }
    let infos = children(doc, interfaces[0], "Info");
    if infos.len() == 0 {
        return Err(DecodeError::FieldNotFound);
    }
    let addresses = children(doc, infos[0], "HwAddress");
    if addresses.len() == 0 {
        return Err(DecodeError::FieldNotFound);
    }
    Ok(doc.text_of(addresses[0]))
}

/// The path of the answer to `GetScopes`.
pub open spec fn scopes_answer_path() -> Seq<Seq<char>> {
    seq!["Envelope"@, "Body"@, "GetScopesResponse"@]
}

/// The path of a scope in the answer to `GetScopes`.
pub open spec fn scope_item_path() -> Seq<Seq<char>> {
    seq!["Envelope"@, "Body"@, "GetScopesResponse"@, "Scopes"@, "ScopeItem"@]
}

/// The scopes that an answer to `GetScopes` lists, in document order. The
/// shape is unexpected where the answer element is absent.
pub open spec fn scopes_of(nodes: Seq<Node>) -> Result<Seq<Seq<char>>, DecodeError> {
    if select_all(nodes, scopes_answer_path()).len() == 0 {
        Err(DecodeError::UnexpectedShape)
    } else {
        Ok(texts_of(nodes, select_all(nodes, scope_item_path())))
    }
}

/// Reads the scopes that an answer to `GetScopes` lists.
pub fn read_scopes(doc: &Document) -> (r: Result<Vec<String>, DecodeError>)
    ensures
        match r {
            Ok(v) => scopes_of(doc@) == Ok::<Seq<Seq<char>>, DecodeError>(v.deep_view()),
            Err(e) => scopes_of(doc@) == Err::<Seq<Seq<char>>, DecodeError>(e),
        },
{
    let answer: Vec<&str> = vec!["Envelope", "Body", "GetScopesResponse"];
    assert(str_names(answer@) =~= scopes_answer_path());
    if select(doc, answer.as_slice()).len() == 0 {
        return Err(DecodeError::UnexpectedShape);
    }
    let items: Vec<&str> = vec!["Envelope", "Body", "GetScopesResponse", "Scopes", "ScopeItem"];
    assert(str_names(items@) =~= scope_item_path());
    Ok(select_texts(doc, items.as_slice()))
}

/// The path of a profile in the answer to `GetProfiles`.
pub open spec fn profile_path() -> Seq<Seq<char>> {
    seq!["Envelope"@, "Body"@, "GetProfilesResponse"@, "Profiles"@]
}

/// The path of the answer to `GetProfiles`.
pub open spec fn profiles_answer_path() -> Seq<Seq<char>> {
    seq!["Envelope"@, "Body"@, "GetProfilesResponse"@]
}

/// The tokens of the profiles `found` from `k` on: the attribute `token` of
/// each. There are none where one of the profiles has no such attribute.
pub open spec fn tokens_from(nodes: Seq<Node>, found: Seq<usize>, k: int) -> Option<Seq<Seq<char>>>
    decreases found.len() - k,
{
    if k < 0 || k >= found.len() {
        Some(Seq::empty())
    } else {
        match attribute_value(nodes[found[k] as int].attributes, "token"@, 0) {
            None => None,
            Some(token) => match tokens_from(nodes, found, k + 1) {
                None => None,
                Some(rest) => Some(seq![token] + rest),
            },
        }
    }
}

/// The tokens of the profiles that an answer to `GetProfiles` lists, in
/// document order. The shape is unexpected where the answer element is
/// absent or a profile has no token.
pub open spec fn profile_tokens_of(nodes: Seq<Node>) -> Result<Seq<Seq<char>>, DecodeError> {
    if select_all(nodes, profiles_answer_path()).len() == 0 {
        Err(DecodeError::UnexpectedShape)
    } else {
        match tokens_from(nodes, select_all(nodes, profile_path()), 0) {
            Some(tokens) => Ok(tokens),
            None => Err(DecodeError::UnexpectedShape),
        }
    }
}

/// `head` before the tokens `tail`, where there are any.
pub open spec fn tokens_after(head: Seq<Seq<char>>, tail: Option<Seq<Seq<char>>>) -> Option<
    Seq<Seq<char>>,
> {
    match tail {
        Some(t) => Some(head + t),
        None => None,
    }
}

/// Reads the tokens of the profiles that an answer to `GetProfiles` lists.
pub fn read_profile_tokens(doc: &Document) -> (r: Result<Vec<String>, DecodeError>)
    ensures
        match r {
            Ok(v) => profile_tokens_of(doc@) == Ok::<Seq<Seq<char>>, DecodeError>(v.deep_view()),
            Err(e) => profile_tokens_of(doc@) == Err::<Seq<Seq<char>>, DecodeError>(e),
        },
{
    let answer: Vec<&str> = vec!["Envelope", "Body", "GetProfilesResponse"];
    assert(str_names(answer@) =~= profiles_answer_path());
    if select(doc, answer.as_slice()).len() == 0 {
        return Err(DecodeError::UnexpectedShape);
    }
    let path: Vec<&str> = vec!["Envelope", "Body", "GetProfilesResponse", "Profiles"];
    assert(str_names(path@) =~= profile_path());
    let found = select(doc, path.as_slice());
    let mut out: Vec<String> = Vec::new();
    let mut k: usize = 0;
    assert(out.deep_view() =~= Seq::<Seq<char>>::empty());
    assert(tokens_after(out.deep_view(), tokens_from(doc@, found@, 0)) == tokens_from(
        doc@,
        found@,
        0,
    )) by {
        if tokens_from(doc@, found@, 0) is Some {
            assert(out.deep_view() + tokens_from(doc@, found@, 0)->0 =~= tokens_from(
                doc@,
                found@,
                0,
            )->0);
        }
    }
    while k < found.len()
        invariant
            k <= found.len(),
            ascending_below(found@, doc@.len() as int),
            found@ == select_all(doc@, profile_path()),
            select_all(doc@, profiles_answer_path()).len() > 0,
            tokens_after(out.deep_view(), tokens_from(doc@, found@, k as int)) == tokens_from(
                doc@,
                found@,
                0,
            ),
        decreases found.len() - k,
    {
        match doc.attribute_of(found[k], "token") {
            None => {
                return Err(DecodeError::UnexpectedShape);
            },
            Some(token) => {
                let ghost before = out.deep_view();
                let ghost rest = tokens_from(doc@, found@, k + 1);
                out.push(token);
                assert(out.deep_view() =~= before + seq![token@]);
                proof {
                    if rest is Some {
                        assert(before + (seq![token@] + rest->0) =~= out.deep_view() + rest->0);
                    }
                }
            },
        }
        k += 1;
    }
    assert(out.deep_view() + Seq::<Seq<char>>::empty() =~= out.deep_view());
    Ok(out)
}

} // verus!
