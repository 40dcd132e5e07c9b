//! The queries of one device as a state machine: which request comes next,
//! and what each outcome adds to the descriptor of the device.
//!
//! The queries run in a fixed order. A query that fails marks its own field
//! and stops no other, but the media queries need the address of the media
//! service: where the device names none, they are skipped. The stream
//! queries, one for each profile, may be answered in any order.

use crate::descriptor::{
    all_settled, profile_views, status_of, text_view, unknown_device, DescriptorView,
    DeviceDescriptor, Profile, ProfileView, Status, Statuses,
};
use crate::document::DecodeError;
use crate::fingerprint::{fingerprint, fingerprint_of};
use crate::response::{
    answer_of, field_of, find_service, hardware_address_of, hostname_path, profile_tokens_of,
    read_answer, read_hardware_address, read_hostname, read_profile_tokens, read_scopes,
    read_serial_number, read_services, read_stream_uri, scopes_of, serial_number_path,
    service_address, service_views, services_of, stream_uri_path, HttpOutcome, Service,
};
use crate::soap::{
    content_type_of, post, url_of, Endpoints, HttpRequest, Operation, DEVICE_NAMESPACE,
    MEDIA_NAMESPACE,
};
use vstd::prelude::*;

verus! {

/// The query that a pipeline is at.
#[derive(Clone, Copy, Debug, PartialEq, Eq, Structural)]
pub enum Stage {
    Services,
    Information,
    Interfaces,
    Hostname,
    Scopes,
    Profiles,
    /// The stream queries of the profiles, in any order.
    StreamUris,
    /// Every query was made or skipped.
    Done,
}

/// A pipeline as contracts see it.
pub struct PipelineView {
    pub stage: Stage,
    pub device: DescriptorView,
    pub port: u16,
    pub device_path: Seq<char>,
    pub media_path: Seq<char>,
}

/// A text that was decoded, or nothing.
pub open spec fn decoded_text(r: Result<Seq<char>, DecodeError>) -> Option<Seq<char>> {
    match r {
        Ok(t) => Some(t),
        Err(_) => None,
    }
}

/// The services that the outcome of `GetServices` lists, if it lists any.
pub open spec fn services_from(o: HttpOutcome) -> Option<Seq<(Seq<char>, Seq<char>)>> {
    match answer_of(o) {
        Ok(nodes) => match services_of(nodes) {
            Ok(s) => Some(s),
            Err(_) => None,
        },
        Err(_) => None,
    }
}

/// The serial number in the outcome of `GetDeviceInformation`.
pub open spec fn serial_from(o: HttpOutcome) -> Option<Seq<char>> {
    match answer_of(o) {
        Ok(nodes) => decoded_text(field_of(nodes, serial_number_path())),
        Err(_) => None,
    }
}

/// The hardware address in the outcome of `GetNetworkInterfaces`.
pub open spec fn mac_from(o: HttpOutcome) -> Option<Seq<char>> {
    match answer_of(o) {
        Ok(nodes) => decoded_text(hardware_address_of(nodes)),
        Err(_) => None,
    }
}

/// The name in the outcome of `GetHostname`.
pub open spec fn hostname_from(o: HttpOutcome) -> Option<Seq<char>> {
    match answer_of(o) {
        Ok(nodes) => decoded_text(field_of(nodes, hostname_path())),
        Err(_) => None,
    }
}

/// The address in the outcome of `GetStreamUri`.
pub open spec fn stream_uri_from(o: HttpOutcome) -> Option<Seq<char>> {
    match answer_of(o) {
        Ok(nodes) => decoded_text(field_of(nodes, stream_uri_path())),
        Err(_) => None,
    }
}

/// The scopes in the outcome of `GetScopes`.
pub open spec fn scopes_from(o: HttpOutcome) -> Option<Seq<Seq<char>>> {
    match answer_of(o) {
        Ok(nodes) => match scopes_of(nodes) {
            Ok(s) => Some(s),
            Err(_) => None,
        },
        Err(_) => None,
    }
}

/// The profile tokens in the outcome of `GetProfiles`.
pub open spec fn tokens_in(o: HttpOutcome) -> Option<Seq<Seq<char>>> {
    match answer_of(o) {
        Ok(nodes) => match profile_tokens_of(nodes) {
            Ok(s) => Some(s),
            Err(_) => None,
        },
        Err(_) => None,
    }
}

/// The profiles with the tokens `tokens`, in that order, their streams not
/// asked for yet.
pub open spec fn pending_profiles(tokens: Seq<Seq<char>>) -> Seq<ProfileView> {
    Seq::new(
        tokens.len(),
        |k: int| ProfileView { token: tokens[k], stream_uri: None, status: Status::Pending },
    )
}

/// The fingerprint that goes with a hardware address.
pub open spec fn fingerprint_for(base_address: Seq<char>, mac: Option<Seq<char>>) -> Option<
    Seq<char>,
> {
    match mac {
        Some(m) => Some(fingerprint_of(base_address, m)),
        None => None,
    }
}

/// The pipeline `p` at `stage` with the device `device`.
pub open spec fn moved(p: PipelineView, stage: Stage, device: DescriptorView) -> PipelineView {
    PipelineView {
        stage,
        device,
        port: p.port,
        device_path: p.device_path,
        media_path: p.media_path,
    }
}

/// The pipeline after the outcome of the query that it was at.
///
/// Every query up to `GetScopes` is followed by the next, however it ended.
/// `GetProfiles` follows only where the media service is known; otherwise
/// it and the stream queries are skipped. The stream queries follow where
/// `GetProfiles` listed a profile. They are skipped where it failed.
pub open spec fn after(p: PipelineView, o: HttpOutcome) -> PipelineView {
    let d = p.device;
    let st = d.statuses;
    match p.stage {
        Stage::Services => match services_from(o) {
            Some(s) => moved(
                p,
                Stage::Information,
                DescriptorView {
                    device_service_uri: service_address(s, DEVICE_NAMESPACE@, 0),
                    media_service_uri: service_address(s, MEDIA_NAMESPACE@, 0),
                    statuses: Statuses { services: Status::Obtained, ..st },
                    ..d
                },
            ),
            None => moved(
                p,
                Stage::Information,
                DescriptorView { statuses: Statuses { services: Status::Failed, ..st }, ..d },
            ),
        },
        Stage::Information => moved(
            p,
            Stage::Interfaces,
            DescriptorView {
                serial_number: serial_from(o),
                statuses: Statuses { information: status_of(serial_from(o)), ..st },
                ..d
            },
        ),
        Stage::Interfaces => moved(
            p,
            Stage::Hostname,
            DescriptorView {
                mac_address: mac_from(o),
                fingerprint: fingerprint_for(d.base_address, mac_from(o)),
                statuses: Statuses { interfaces: status_of(mac_from(o)), ..st },
                ..d
            },
        ),
        Stage::Hostname => moved(
            p,
            Stage::Scopes,
            DescriptorView {
                hostname: hostname_from(o),
                statuses: Statuses { hostname: status_of(hostname_from(o)), ..st },
                ..d
            },
        ),
        Stage::Scopes => {
            let scopes = match scopes_from(o) {
                Some(s) => s,
                None => Seq::empty(),
            };
            if d.media_service_uri is Some {
                moved(
                    p,
                    Stage::Profiles,
                    DescriptorView {
                        scopes,
                        statuses: Statuses { scopes: status_of(scopes_from(o)), ..st },
                        ..d
                    },
                )
            } else {
                moved(
                    p,
                    Stage::Done,
                    DescriptorView {
                        scopes,
                        statuses: Statuses {
                            scopes: status_of(scopes_from(o)),
                            profiles: Status::Skipped,
                            stream_uris: Status::Skipped,
                            ..st
                        },
                        ..d
                    },
                )
            }
        },
        Stage::Profiles => match tokens_in(o) {
            Some(tokens) => if tokens.len() == 0 {
                moved(
                    p,
                    Stage::Done,
                    DescriptorView {
                        profiles: pending_profiles(tokens),
                        statuses: Statuses {
                            profiles: Status::Obtained,
                            stream_uris: Status::Obtained,
                            ..st
                        },
                        ..d
                    },
                )
            } else {
                moved(
                    p,
                    Stage::StreamUris,
                    DescriptorView {
                        profiles: pending_profiles(tokens),
                        statuses: Statuses { profiles: Status::Obtained, ..st },
                        ..d
                    },
                )
            },
            None => moved(
                p,
                Stage::Done,
                DescriptorView {
                    statuses: Statuses {
                        profiles: Status::Failed,
                        stream_uris: Status::Skipped,
                        ..st
                    },
                    ..d
                },
            ),
        },
        _ => p,
    }
}

/// The profile `q` after the outcome of its stream query.
pub open spec fn settled(q: ProfileView, o: HttpOutcome) -> ProfileView {
    ProfileView {
        token: q.token,
        stream_uri: stream_uri_from(o),
        status: status_of(stream_uri_from(o)),
    }
}

/// The pipeline after the outcome of the stream query of the profile `i`.
/// The outcome fills the profile `i` and no other; the pipeline is done
/// once every profile is filled. An outcome for a profile that is not
/// waiting for one changes nothing.
pub open spec fn after_stream(p: PipelineView, i: int, o: HttpOutcome) -> PipelineView {
    let d = p.device;
    if p.stage == Stage::StreamUris && 0 <= i < d.profiles.len() && d.profiles[i].status
        == Status::Pending {
        let profiles = d.profiles.update(i, settled(d.profiles[i], o));
        if all_settled(profiles) {
            moved(
                p,
                Stage::Done,
                DescriptorView {
                    profiles,
                    statuses: Statuses { stream_uris: Status::Obtained, ..d.statuses },
                    ..d
                },
            )
        } else {
            moved(p, Stage::StreamUris, DescriptorView { profiles, ..d })
        }
    } else {
        p
    }
}

/// The operation that a pipeline at `stage` asks for with `request`.
pub open spec fn operation_at(stage: Stage) -> Option<Operation> {
    match stage {
        Stage::Services => Some(Operation::GetServices),
        Stage::Information => Some(Operation::GetDeviceInformation),
        Stage::Interfaces => Some(Operation::GetNetworkInterfaces),
        Stage::Hostname => Some(Operation::GetHostname),
        Stage::Scopes => Some(Operation::GetScopes),
        Stage::Profiles => Some(Operation::GetProfiles),
        _ => None,
    }
}

/// The path of the service that answers `operation`.
pub open spec fn path_at(p: PipelineView, operation: Operation) -> Seq<char> {
    if operation.is_media() {
        p.media_path
    } else {
        p.device_path
    }
}

/// A pipeline before its first query.
pub open spec fn fresh_pipeline(base_address: Seq<char>, endpoints: Endpoints) -> PipelineView {
    PipelineView {
        stage: Stage::Services,
        device: unknown_device(base_address),
        port: endpoints.port,
        device_path: endpoints.device_path@,
        media_path: endpoints.media_path@,
    }
}

/// Whether the outcome of `GetServices` names no media service: the query
/// failed, or the services that it lists hold none of the media namespace.
pub open spec fn names_no_media_service(o: HttpOutcome) -> bool {
    match services_from(o) {
        Some(s) => service_address(s, MEDIA_NAMESPACE@, 0) is None,
        None => true,
    }
}

/// Where `GetServices` fails or names no media service, the media queries
/// are never asked for and are marked as skipped, while the four queries of
/// the device-management service are made one after the other, and each
/// fills its field by its own outcome alone.
pub proof fn lemma_media_queries_skipped(
    base_address: Seq<char>,
    endpoints: Endpoints,
    services: HttpOutcome,
    information: HttpOutcome,
    interfaces: HttpOutcome,
    hostname: HttpOutcome,
    scopes: HttpOutcome,
)
    requires
        names_no_media_service(services),
    ensures
        ({
            let begun = fresh_pipeline(base_address, endpoints);
            let served = after(begun, services);
            let informed = after(served, information);
            let addressed = after(informed, interfaces);
            let named = after(addressed, hostname);
            let last = after(named, scopes);
            &&& operation_at(begun.stage) == Some(Operation::GetServices)
            &&& operation_at(served.stage) == Some(Operation::GetDeviceInformation)
            &&& operation_at(informed.stage) == Some(Operation::GetNetworkInterfaces)
            &&& operation_at(addressed.stage) == Some(Operation::GetHostname)
            &&& operation_at(named.stage) == Some(Operation::GetScopes)
            &&& last.stage == Stage::Done
            &&& last.device.statuses.profiles == Status::Skipped
            &&& last.device.statuses.stream_uris == Status::Skipped
            &&& last.device.profiles.len() == 0
            &&& last.device.serial_number == serial_from(information)
            &&& last.device.statuses.information == status_of(serial_from(information))
            &&& last.device.mac_address == mac_from(interfaces)
            &&& last.device.statuses.interfaces == status_of(mac_from(interfaces))
            &&& last.device.hostname == hostname_from(hostname)
            &&& last.device.statuses.hostname == status_of(hostname_from(hostname))
            &&& last.device.statuses.scopes == status_of(scopes_from(scopes))
            &&& (scopes_from(scopes) matches Some(found) ==> last.device.scopes == found)
        }),
{
}

/// Where `GetServices` names a media service, `GetProfiles` is asked for
/// once the queries of the device-management service are through, however
/// those ended.
pub proof fn lemma_media_queries_follow(
    base_address: Seq<char>,
    endpoints: Endpoints,
    services: HttpOutcome,
    information: HttpOutcome,
    interfaces: HttpOutcome,
    hostname: HttpOutcome,
    scopes: HttpOutcome,
)
    requires
        !names_no_media_service(services),
    ensures
        ({
            let served = after(fresh_pipeline(base_address, endpoints), services);
            let last = after(after(after(after(served, information), interfaces), hostname), scopes);
            &&& last.stage == Stage::Profiles
            &&& operation_at(last.stage) == Some(Operation::GetProfiles)
            &&& last.device.statuses.profiles == Status::Pending
        }),
{
}

/// The outcome of a stream query changes no token and moves no profile:
/// the profiles stay in the order in which the device listed them.
pub proof fn lemma_stream_outcome_keeps_order(p: PipelineView, i: int, o: HttpOutcome)
    ensures
        after_stream(p, i, o).device.profiles.len() == p.device.profiles.len(),
        forall|k: int|
            0 <= k < p.device.profiles.len() ==> (#[trigger] after_stream(
                p,
                i,
                o,
            ).device.profiles[k]).token == p.device.profiles[k].token,
        forall|k: int|
            0 <= k < p.device.profiles.len() && k != i ==> #[trigger] after_stream(
                p,
                i,
                o,
            ).device.profiles[k] == p.device.profiles[k],
{
}

/// The stream queries may be answered in any order: the outcomes of two
/// different profiles, taken one way round or the other, leave the same
/// pipeline.
pub proof fn lemma_stream_outcomes_commute(
    p: PipelineView,
    i: int,
    j: int,
    a: HttpOutcome,
    b: HttpOutcome,
)
    requires
        i != j,
    ensures
        after_stream(after_stream(p, i, a), j, b) == after_stream(after_stream(p, j, b), i, a),
{
    let d = p.device;
    let waits = |k: int|
        p.stage == Stage::StreamUris && 0 <= k < d.profiles.len() && d.profiles[k].status
            == Status::Pending;
    if waits(i) && waits(j) {
        let pi = d.profiles.update(i, settled(d.profiles[i], a));
        let pj = d.profiles.update(j, settled(d.profiles[j], b));
        assert(pi[j].status == Status::Pending);
        assert(pj[i].status == Status::Pending);
        assert(!all_settled(pi));
        assert(!all_settled(pj));
        assert(pi.update(j, settled(pi[j], b)) =~= pj.update(i, settled(pj[i], a)));
    } else if waits(i) {
        let pi = d.profiles.update(i, settled(d.profiles[i], a));
        if 0 <= j < d.profiles.len() {
            assert(pi[j] == d.profiles[j]);
        }
    } else if waits(j) {
        let pj = d.profiles.update(j, settled(d.profiles[j], b));
        if 0 <= i < d.profiles.len() {
            assert(pj[i] == d.profiles[i]);
        }
    }
}

/// The fingerprint goes with the hardware address.
pub open spec fn fingerprint_fits(d: DescriptorView) -> bool {
    d.fingerprint == fingerprint_for(d.base_address, d.mac_address)
}

/// The fingerprint is known exactly where the hardware address is, and is
/// the fingerprint of that address: this holds before the first query and
/// after every outcome.
pub proof fn lemma_fingerprint_fits(p: PipelineView, i: int, o: HttpOutcome)
    requires
        fingerprint_fits(p.device),
    ensures
        fingerprint_fits(after(p, o).device),
        fingerprint_fits(after_stream(p, i, o).device),
        after(p, o).device.base_address == p.device.base_address,
        after_stream(p, i, o).device.base_address == p.device.base_address,
{
}

/// The queries of one device.
pub struct Pipeline {
    stage: Stage,
    device: DeviceDescriptor,
    endpoints: Endpoints,
}

impl View for Pipeline {
    type V = PipelineView;

    closed spec fn view(&self) -> PipelineView {
        PipelineView {
            stage: self.stage,
            device: self.device@,
            port: self.endpoints.port,
            device_path: self.endpoints.device_path@,
            media_path: self.endpoints.media_path@,
        }
    }
}

/// Reads the services from the outcome of `GetServices`.
pub fn services_in(o: &HttpOutcome) -> (r: Option<Vec<Service>>)
    ensures
        match r {
            Some(v) => services_from(*o) == Some(service_views(v@)),
            None => services_from(*o) is None,
        },
{
    match read_answer(o) {
        Ok(doc) => match read_services(&doc) {
            Ok(v) => Some(v),
            Err(_) => None,
        },
        Err(_) => None,
    }
}

/// Reads the serial number from the outcome of `GetDeviceInformation`.
pub fn serial_in(o: &HttpOutcome) -> (r: Option<String>)
    ensures
        text_view(r) == serial_from(*o),
{
    match read_answer(o) {
        Ok(doc) => match read_serial_number(&doc) {
            Ok(t) => Some(t),
            Err(_) => None,
        },
        Err(_) => None,
    }
}

/// Reads the hardware address from the outcome of `GetNetworkInterfaces`.
pub fn mac_in(o: &HttpOutcome) -> (r: Option<String>)
    ensures
        text_view(r) == mac_from(*o),
{
    match read_answer(o) {
        Ok(doc) => match read_hardware_address(&doc) {
            Ok(t) => Some(t),
            Err(_) => None,
        },
        Err(_) => None,
    }
}

/// Reads the name from the outcome of `GetHostname`.
pub fn hostname_in(o: &HttpOutcome) -> (r: Option<String>)
    ensures
        text_view(r) == hostname_from(*o),
{
    match read_answer(o) {
        Ok(doc) => match read_hostname(&doc) {
            Ok(t) => Some(t),
            Err(_) => None,
        },
        Err(_) => None,
    }
}

/// Reads the address from the outcome of `GetStreamUri`.
pub fn stream_uri_in(o: &HttpOutcome) -> (r: Option<String>)
    ensures
        text_view(r) == stream_uri_from(*o),
{
    match read_answer(o) {
        Ok(doc) => match read_stream_uri(&doc) {
            Ok(t) => Some(t),
            Err(_) => None,
        },
        Err(_) => None,
    }
}

/// Reads the scopes from the outcome of `GetScopes`.
pub fn scopes_in(o: &HttpOutcome) -> (r: Option<Vec<String>>)
    ensures
        match r {
            Some(v) => scopes_from(*o) == Some(v.deep_view()),
            None => scopes_from(*o) is None,
        },
{
    match read_answer(o) {
        Ok(doc) => match read_scopes(&doc) {
            Ok(v) => Some(v),
            Err(_) => None,
        },
        Err(_) => None,
    }
}

/// Reads the profile tokens from the outcome of `GetProfiles`.
pub fn profile_tokens_in(o: &HttpOutcome) -> (r: Option<Vec<String>>)
    ensures
        match r {
            Some(v) => tokens_in(*o) == Some(v.deep_view()),
            None => tokens_in(*o) is None,
        },
{
    match read_answer(o) {
        Ok(doc) => match read_profile_tokens(&doc) {
            Ok(v) => Some(v),
            Err(_) => None,
        },
        Err(_) => None,
    }
}

/// The profiles with the tokens `tokens`, their streams not asked for yet.
pub fn profiles_for(tokens: Vec<String>) -> (r: Vec<Profile>)
    ensures
        profile_views(r@) == pending_profiles(tokens.deep_view()),
{
    let mut tokens = tokens;
    let ghost all = tokens.deep_view();
    let mut r: Vec<Profile> = Vec::new();
    let n = tokens.len();
    let mut k: usize = 0;
    while k < n
        invariant
            k <= n,
            n == all.len(),
            r.len() == k,
            tokens.len() == n - k,
            forall|j: int| 0 <= j < n - k ==> (#[trigger] tokens@[j])@ == all[k + j],
            forall|j: int|
                0 <= j < k ==> (#[trigger] r@[j])@ == (ProfileView {
                    token: all[j],
                    stream_uri: None,
                    status: Status::Pending,
                }),
        decreases n - k,
    {
        let token = tokens.remove(0);
        r.push(Profile { token, stream_uri: None, status: Status::Pending });
        k += 1;
    }
    assert(profile_views(r@) =~= pending_profiles(all));
    r
}

impl Pipeline {
    /// The pipeline of the device at `base_address`, before its first
    /// query.
    pub fn new(base_address: String, endpoints: Endpoints) -> (r: Pipeline)
        ensures
            r@ == fresh_pipeline(base_address@, endpoints),
    {
        Pipeline { stage: Stage::Services, device: DeviceDescriptor::new(base_address), endpoints }
    }

    /// The query that the pipeline is at.
    pub fn stage(&self) -> (s: Stage)
        ensures
            s == self@.stage,
    {
        self.stage
    }

    /// Whether every query was made or skipped.
    pub fn is_done(&self) -> (b: bool)
        ensures
            b == (self@.stage == Stage::Done),
    {
        match self.stage {
            Stage::Done => true,
            _ => false,
        }
    }

    /// What is known of the device so far.
    pub fn descriptor(&self) -> (d: &DeviceDescriptor)
        ensures
            d@ == self@.device,
    {
        &self.device
    }

    /// What is known of the device, handed over.
    pub fn into_descriptor(self) -> (d: DeviceDescriptor)
        ensures
            d@ == self@.device,
    {
        self.device
    }

    /// The request of the query that the pipeline is at. There is none
    /// while the stream queries run, nor when the pipeline is done.
    pub fn request(&self) -> (r: Option<HttpRequest>)
        ensures
            match r {
                Some(q) => match operation_at(self@.stage) {
                    Some(op) => {
                        &&& q.url@ == url_of(
                            self@.device.base_address,
                            self@.port,
                            path_at(self@, op),
                        )
                        &&& q.host@ == self@.device.base_address
                        &&& q.port == self@.port
                        &&& q.path@ == path_at(self@, op)
                        &&& q.content_type@ == content_type_of(op.action())
                        &&& q.connection_close
                        &&& q.body@ == op.envelope(Seq::empty())
                    },
                    None => false,
                },
                None => operation_at(self@.stage) is None,
            },
    {
        let operation = match self.stage {
            Stage::Services => Operation::GetServices,
            Stage::Information => Operation::GetDeviceInformation,
            Stage::Interfaces => Operation::GetNetworkInterfaces,
            Stage::Hostname => Operation::GetHostname,
            Stage::Scopes => Operation::GetScopes,
            Stage::Profiles => Operation::GetProfiles,
            _ => {
                return None;
            },
        };
        let none: Vec<char> = Vec::new();
        let token = crate::text::string_of(&none);
        Some(post(self.device.base_address.as_str(), operation, token.as_str(), &self.endpoints))
    }

    /// The request of the stream query of the profile `index`, while that
    /// profile waits for its stream.
    pub fn stream_request(&self, index: usize) -> (r: Option<HttpRequest>)
        ensures
            match r {
                Some(q) => {
                    &&& self@.stage == Stage::StreamUris
                    &&& index < self@.device.profiles.len()
                    &&& self@.device.profiles[index as int].status == Status::Pending
                    &&& q.url@ == url_of(self@.device.base_address, self@.port, self@.media_path)
                    &&& q.host@ == self@.device.base_address
                    &&& q.port == self@.port
                    &&& q.path@ == self@.media_path
                    &&& q.content_type@ == content_type_of(Operation::GetStreamUri.action())
                    &&& q.connection_close
                    &&& q.body@ == Operation::GetStreamUri.envelope(
                        self@.device.profiles[index as int].token,
                    )
                },
                None => !(self@.stage == Stage::StreamUris && index < self@.device.profiles.len()
                    && self@.device.profiles[index as int].status == Status::Pending),
            },
    {
        match self.stage {
            Stage::StreamUris => {},
            _ => {
                return None;
            },
        }
        if index >= self.device.profiles.len() {
            return None;
        }
        assert(self@.device.profiles[index as int] == self.device.profiles@[index as int]@);
        match self.device.profiles[index].status {
            Status::Pending => {},
            _ => {
                return None;
            },
        }
        Some(
            post(
                self.device.base_address.as_str(),
                Operation::GetStreamUri,
                self.device.profiles[index].token.as_str(),
                &self.endpoints,
            ),
        )
    }

    /// Takes the outcome of the query that the pipeline is at.
    pub fn on_outcome(&mut self, outcome: HttpOutcome)
        ensures
            final(self)@ == after(old(self)@, outcome),
    {
        match self.stage {
            Stage::Services => {
                match services_in(&outcome) {
                    Some(services) => {
                        self.device.device_service_uri = find_service(&services, DEVICE_NAMESPACE);
                        self.device.media_service_uri = find_service(&services, MEDIA_NAMESPACE);
                        self.device.statuses.services = Status::Obtained;
                    },
                    None => {
                        self.device.statuses.services = Status::Failed;
                    },
                }
                self.stage = Stage::Information;
            },
            Stage::Information => {
                let serial = serial_in(&outcome);
                self.device.statuses.information = if serial.is_some() {
                    Status::Obtained
                } else {
                    Status::Failed
                };
                self.device.serial_number = serial;
                self.stage = Stage::Interfaces;
            },
            Stage::Interfaces => {
                let mac = mac_in(&outcome);
                match &mac {
                    Some(m) => {
                        self.device.fingerprint = Some(
                            fingerprint(self.device.base_address.as_str(), m.as_str()),
                        );
                        self.device.statuses.interfaces = Status::Obtained;
                    },
                    None => {
                        self.device.fingerprint = None;
                        self.device.statuses.interfaces = Status::Failed;
                    },
                }
                self.device.mac_address = mac;
                self.stage = Stage::Hostname;
            },
            Stage::Hostname => {
                let name = hostname_in(&outcome);
                self.device.statuses.hostname = if name.is_some() {
                    Status::Obtained
                } else {
                    Status::Failed
                };
                self.device.hostname = name;
                self.stage = Stage::Scopes;
            },
            Stage::Scopes => {
                match scopes_in(&outcome) {
                    Some(scopes) => {
                        self.device.scopes = scopes;
                        self.device.statuses.scopes = Status::Obtained;
                    },
                    None => {
                        let none: Vec<String> = Vec::new();
                        assert(none.deep_view() =~= Seq::<Seq<char>>::empty());
                        self.device.scopes = none;
                        self.device.statuses.scopes = Status::Failed;
                    },
                }
                if self.device.media_service_uri.is_some() {
                    self.stage = Stage::Profiles;
                } else {
                    self.device.statuses.profiles = Status::Skipped;
                    self.device.statuses.stream_uris = Status::Skipped;
                    self.stage = Stage::Done;
                }
            },
            Stage::Profiles => {
                match profile_tokens_in(&outcome) {
                    Some(tokens) => {
                        let nothing = tokens.len() == 0;
                        self.device.profiles = profiles_for(tokens);
                        self.device.statuses.profiles = Status::Obtained;
                        if nothing {
                            self.device.statuses.stream_uris = Status::Obtained;
                            self.stage = Stage::Done;
                        } else {
                            self.stage = Stage::StreamUris;
                        }
                    },
                    None => {
                        self.device.statuses.profiles = Status::Failed;
                        self.device.statuses.stream_uris = Status::Skipped;
                        self.stage = Stage::Done;
                    },
                }
            },
            _ => {},
        }
    }

    /// Takes the outcome of the stream query of the profile `index`.
    pub fn on_stream_outcome(&mut self, index: usize, outcome: HttpOutcome)
        ensures
            final(self)@ == after_stream(old(self)@, index as int, outcome),
    {
        match self.stage {
            Stage::StreamUris => {},
            _ => {
                return ;
            },
        }
        if index >= self.device.profiles.len() {
            return ;
        }
        assert(self@.device.profiles[index as int] == self.device.profiles@[index as int]@);
        match self.device.profiles[index].status {
            Status::Pending => {},
            _ => {
                return ;
            },
        }
        let uri = stream_uri_in(&outcome);
        let status = if uri.is_some() {
            Status::Obtained
        } else {
            Status::Failed
        };
        let ghost before = self.device.profiles@;
        let waiting = self.device.profiles.remove(index);
        self.device.profiles.insert(
            index,
            Profile { token: waiting.token, stream_uri: uri, status },
        );
        assert(profile_views(self.device.profiles@) =~= profile_views(before).update(
            index as int,
            settled(profile_views(before)[index as int], outcome),
        ));
        if self.device.profiles_settled() {
            self.device.statuses.stream_uris = Status::Obtained;
            self.stage = Stage::Done;
        }
    }
}

} // verus!
