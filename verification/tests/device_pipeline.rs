use onvif_discovery::descriptor::{DeviceDescriptor, Status};
use onvif_discovery::fingerprint::fingerprint;
use onvif_discovery::pipeline::{Pipeline, Stage};
use onvif_discovery::response::HttpOutcome;
use onvif_discovery::soap::{Endpoints, Operation};

fn body(inner: &str) -> HttpOutcome {
    HttpOutcome::Body(format!(
        "<s:Envelope xmlns:s=\"http://www.w3.org/2003/05/soap-envelope\"><s:Body>{}</s:Body></s:Envelope>",
        inner
    ))
}

fn services(with_media: bool) -> HttpOutcome {
    let media = if with_media {
        "<tds:Service><tds:Namespace>http://www.onvif.org/ver10/media/wsdl</tds:Namespace><tds:XAddr>http://10.0.0.5:8899/onvif/Media</tds:XAddr></tds:Service>"
    } else {
        ""
    };
    body(&format!(
        "<tds:GetServicesResponse><tds:Service><tds:Namespace>http://www.onvif.org/ver10/device/wsdl</tds:Namespace><tds:XAddr>http://10.0.0.5:8899/onvif/device_service</tds:XAddr></tds:Service>{}</tds:GetServicesResponse>",
        media
    ))
}

fn information() -> HttpOutcome {
    body("<tds:GetDeviceInformationResponse><tds:SerialNumber>SN-0042</tds:SerialNumber></tds:GetDeviceInformationResponse>")
}

fn interfaces() -> HttpOutcome {
    body("<tds:GetNetworkInterfacesResponse><tds:NetworkInterfaces><tt:Info><tt:HwAddress>00:11:22:33:44:55</tt:HwAddress></tt:Info></tds:NetworkInterfaces></tds:GetNetworkInterfacesResponse>")
}

fn hostname() -> HttpOutcome {
    body("<tds:GetHostnameResponse><tds:HostnameInformation><tt:Name>front-door</tt:Name></tds:HostnameInformation></tds:GetHostnameResponse>")
}

fn scopes() -> HttpOutcome {
    body("<tds:GetScopesResponse><tds:Scopes><tt:ScopeItem>onvif://www.onvif.org/name/NVT</tt:ScopeItem></tds:Scopes></tds:GetScopesResponse>")
}

fn profiles(tokens: &[&str]) -> HttpOutcome {
    let mut inner = String::new();
    for t in tokens {
        inner.push_str(&format!("<trt:Profiles token=\"{}\"/>", t));
    }
    body(&format!("<trt:GetProfilesResponse>{}</trt:GetProfilesResponse>", inner))
}

fn stream(uri: &str) -> HttpOutcome {
    body(&format!(
        "<trt:GetStreamUriResponse><trt:MediaUri><tt:Uri>{}</tt:Uri></trt:MediaUri></trt:GetStreamUriResponse>",
        uri
    ))
}

fn pipeline() -> Pipeline {
    Pipeline::new("10.0.0.5".to_string(), Endpoints::conventional())
}

fn through_device_queries(p: &mut Pipeline, first: HttpOutcome) {
    let e = Endpoints::conventional();
    let expected = [
        Operation::GetServices,
        Operation::GetDeviceInformation,
        Operation::GetNetworkInterfaces,
        Operation::GetHostname,
        Operation::GetScopes,
    ];
    let outcomes = vec![first, information(), interfaces(), hostname(), scopes()];
    for (op, outcome) in expected.iter().zip(outcomes) {
        let request = p.request().unwrap();
        assert_eq!(request.url, "http://10.0.0.5:8899/onvif/device_service");
        assert_eq!(request.body, op.encode(""));
        assert_eq!(request.content_type, onvif_discovery::soap::content_type(op.action_uri()));
        assert_eq!(request.url, onvif_discovery::soap::post("10.0.0.5", *op, "", &e).url);
        p.on_outcome(outcome);
    }
}

fn token_and_uri(d: &DeviceDescriptor) -> Vec<(String, Option<String>, Status)> {
    d.profiles.iter().map(|p| (p.token.clone(), p.stream_uri.clone(), p.status)).collect()
}

#[test]
fn a_new_pipeline_knows_only_the_address() {
    let p = pipeline();
    assert_eq!(p.stage(), Stage::Services);
    assert!(!p.is_done());
    let d = p.descriptor();
    assert_eq!(d.base_address, "10.0.0.5");
    assert_eq!(d.serial_number, None);
    assert_eq!(d.fingerprint, None);
    assert!(d.scopes.is_empty());
    assert!(d.profiles.is_empty());
    assert_eq!(d.statuses.services, Status::Pending);
    assert_eq!(d.statuses.stream_uris, Status::Pending);
    assert!(p.stream_request(0).is_none());
}

#[test]
fn every_query_fills_its_field() {
    let mut p = pipeline();
    through_device_queries(&mut p, services(true));
    assert_eq!(p.stage(), Stage::Profiles);
    let request = p.request().unwrap();
    assert_eq!(request.url, "http://10.0.0.5:8899/onvif/Media");
    assert_eq!(request.body, Operation::GetProfiles.encode(""));
    p.on_outcome(profiles(&["P1", "P2"]));
    assert_eq!(p.stage(), Stage::StreamUris);
    assert!(p.request().is_none());
    let first = p.stream_request(0).unwrap();
    assert_eq!(first.url, "http://10.0.0.5:8899/onvif/Media");
    assert_eq!(first.body, Operation::GetStreamUri.encode("P1"));
    assert_eq!(p.stream_request(1).unwrap().body, Operation::GetStreamUri.encode("P2"));
    assert!(p.stream_request(2).is_none());
    p.on_stream_outcome(0, stream("rtsp://10.0.0.5/s1"));
    assert!(p.stream_request(0).is_none());
    assert!(!p.is_done());
    p.on_stream_outcome(1, stream("rtsp://10.0.0.5/s2"));
    assert!(p.is_done());
    assert!(p.request().is_none());
    assert!(p.stream_request(1).is_none());

    let d = p.into_descriptor();
    assert_eq!(d.base_address, "10.0.0.5");
    assert_eq!(d.device_service_uri.as_deref(), Some("http://10.0.0.5:8899/onvif/device_service"));
    assert_eq!(d.media_service_uri.as_deref(), Some("http://10.0.0.5:8899/onvif/Media"));
    assert_eq!(d.serial_number.as_deref(), Some("SN-0042"));
    assert_eq!(d.mac_address.as_deref(), Some("00:11:22:33:44:55"));
    assert_eq!(d.hostname.as_deref(), Some("front-door"));
    assert_eq!(d.fingerprint, Some(fingerprint("10.0.0.5", "00:11:22:33:44:55")));
    assert_eq!(d.fingerprint.as_deref(), Some("adb1a6999187a14b"));
    assert_eq!(d.scopes, vec!["onvif://www.onvif.org/name/NVT"]);
    assert_eq!(
        token_and_uri(&d),
        vec![
            ("P1".to_string(), Some("rtsp://10.0.0.5/s1".to_string()), Status::Obtained),
            ("P2".to_string(), Some("rtsp://10.0.0.5/s2".to_string()), Status::Obtained),
        ]
    );
    let s = d.statuses;
    for status in [s.services, s.information, s.interfaces, s.hostname, s.scopes, s.profiles, s.stream_uris] {
        assert_eq!(status, Status::Obtained);
    }
}

#[test]
fn a_failed_stream_query_marks_its_profile_alone() {
    let mut p = pipeline();
    through_device_queries(&mut p, services(true));
    p.on_outcome(profiles(&["P1", "P2"]));
    p.on_stream_outcome(0, stream("rtsp://10.0.0.5/s1"));
    p.on_stream_outcome(1, HttpOutcome::Failed);
    assert!(p.is_done());
    let d = p.into_descriptor();
    assert_eq!(
        token_and_uri(&d),
        vec![
            ("P1".to_string(), Some("rtsp://10.0.0.5/s1".to_string()), Status::Obtained),
            ("P2".to_string(), None, Status::Failed),
        ]
    );
    assert_eq!(d.statuses.profiles, Status::Obtained);
    assert_eq!(d.statuses.stream_uris, Status::Obtained);
}

#[test]
fn stream_outcomes_may_come_in_any_order() {
    let mut forward = pipeline();
    through_device_queries(&mut forward, services(true));
    forward.on_outcome(profiles(&["P1", "P2", "P3"]));
    forward.on_stream_outcome(0, stream("rtsp://h/1"));
    forward.on_stream_outcome(1, HttpOutcome::TimedOut);
    forward.on_stream_outcome(2, stream("rtsp://h/3"));

    let mut backward = pipeline();
    through_device_queries(&mut backward, services(true));
    backward.on_outcome(profiles(&["P1", "P2", "P3"]));
    backward.on_stream_outcome(2, stream("rtsp://h/3"));
    assert!(!backward.is_done());
    backward.on_stream_outcome(7, stream("rtsp://h/none"));
    backward.on_stream_outcome(2, stream("rtsp://h/again"));
    backward.on_stream_outcome(1, HttpOutcome::TimedOut);
    assert!(!backward.is_done());
    backward.on_stream_outcome(0, stream("rtsp://h/1"));
    assert!(backward.is_done());

    let a = forward.into_descriptor();
    let b = backward.into_descriptor();
    assert_eq!(token_and_uri(&a), token_and_uri(&b));
    assert_eq!(
        token_and_uri(&a),
        vec![
            ("P1".to_string(), Some("rtsp://h/1".to_string()), Status::Obtained),
            ("P2".to_string(), None, Status::Failed),
            ("P3".to_string(), Some("rtsp://h/3".to_string()), Status::Obtained),
        ]
    );
}

#[test]
fn without_a_media_service_the_media_queries_are_skipped() {
    for first in [services(false), HttpOutcome::Failed, HttpOutcome::TimedOut, body("<x/>")] {
        let failed = !matches!(&first, HttpOutcome::Body(b) if b.contains("GetServicesResponse"));
        let mut p = pipeline();
        through_device_queries(&mut p, first);
        assert!(p.is_done());
        assert!(p.request().is_none());
        assert!(p.stream_request(0).is_none());
        let d = p.into_descriptor();
        assert_eq!(d.statuses.services, if failed { Status::Failed } else { Status::Obtained });
        assert_eq!(d.media_service_uri, None);
        assert_eq!(d.statuses.profiles, Status::Skipped);
        assert_eq!(d.statuses.stream_uris, Status::Skipped);
        assert!(d.profiles.is_empty());
        assert_eq!(d.statuses.information, Status::Obtained);
        assert_eq!(d.statuses.interfaces, Status::Obtained);
        assert_eq!(d.statuses.hostname, Status::Obtained);
        assert_eq!(d.statuses.scopes, Status::Obtained);
        assert_eq!(d.serial_number.as_deref(), Some("SN-0042"));
        assert_eq!(d.mac_address.as_deref(), Some("00:11:22:33:44:55"));
        assert_eq!(d.hostname.as_deref(), Some("front-door"));
        assert_eq!(d.fingerprint.as_deref(), Some("adb1a6999187a14b"));
        assert_eq!(d.scopes.len(), 1);
    }
}

#[test]
fn a_failed_query_marks_its_own_field_and_no_other() {
    let mut p = pipeline();
    p.on_outcome(services(true));
    p.on_outcome(HttpOutcome::Failed);
    p.on_outcome(body("<s:Fault><s:Reason><s:Text>not authorized</s:Text></s:Reason></s:Fault>"));
    p.on_outcome(HttpOutcome::Body("<broken".to_string()));
    p.on_outcome(body("<tds:GetHostnameResponse/>"));
    assert_eq!(p.stage(), Stage::Profiles);
    p.on_outcome(HttpOutcome::TimedOut);
    assert!(p.is_done());
    let d = p.into_descriptor();
    assert_eq!(d.statuses.services, Status::Obtained);
    assert_eq!(d.statuses.information, Status::Failed);
    assert_eq!(d.statuses.interfaces, Status::Failed);
    assert_eq!(d.statuses.hostname, Status::Failed);
    assert_eq!(d.statuses.scopes, Status::Failed);
    assert_eq!(d.statuses.profiles, Status::Failed);
    assert_eq!(d.statuses.stream_uris, Status::Skipped);
    assert_eq!(d.serial_number, None);
    assert_eq!(d.mac_address, None);
    assert_eq!(d.fingerprint, None);
    assert_eq!(d.hostname, None);
    assert!(d.scopes.is_empty());
    assert!(d.profiles.is_empty());
    assert!(d.media_service_uri.is_some());
}

#[test]
fn a_device_without_profiles_is_done_after_get_profiles() {
    let mut p = pipeline();
    through_device_queries(&mut p, services(true));
    p.on_outcome(profiles(&[]));
    assert!(p.is_done());
    let d = p.into_descriptor();
    assert_eq!(d.statuses.profiles, Status::Obtained);
    assert_eq!(d.statuses.stream_uris, Status::Obtained);
    assert!(d.profiles.is_empty());
}

#[test]
fn outcomes_out_of_place_change_nothing() {
    let mut p = pipeline();
    p.on_stream_outcome(0, stream("rtsp://x"));
    assert_eq!(p.stage(), Stage::Services);
    through_device_queries(&mut p, services(true));
    p.on_outcome(profiles(&["P1"]));
    p.on_outcome(information());
    assert_eq!(p.stage(), Stage::StreamUris);
    assert_eq!(p.descriptor().serial_number.as_deref(), Some("SN-0042"));
    p.on_stream_outcome(0, stream("rtsp://x"));
    assert!(p.is_done());
    p.on_outcome(profiles(&["P9"]));
    p.on_stream_outcome(0, HttpOutcome::Failed);
    let d = p.into_descriptor();
    assert_eq!(
        token_and_uri(&d),
        vec![("P1".to_string(), Some("rtsp://x".to_string()), Status::Obtained)]
    );
}

#[test]
fn a_descriptor_tells_whether_its_profiles_are_settled() {
    let mut p = pipeline();
    assert!(p.descriptor().profiles_settled());
    through_device_queries(&mut p, services(true));
    p.on_outcome(profiles(&["P1", "P2"]));
    assert!(!p.descriptor().profiles_settled());
    p.on_stream_outcome(1, HttpOutcome::Failed);
    assert!(!p.descriptor().profiles_settled());
    p.on_stream_outcome(0, HttpOutcome::Failed);
    assert!(p.descriptor().profiles_settled());
}
