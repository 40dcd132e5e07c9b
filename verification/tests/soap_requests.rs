use onvif_discovery::document::{DecodeError, Document};
use onvif_discovery::http::{answered, request_head, response_body};
use onvif_discovery::query::select_texts;
use onvif_discovery::response::{
    find_service, read_answer, read_hardware_address, read_hostname, read_profile_tokens,
    read_scopes, read_serial_number, read_services, read_stream_uri, HttpOutcome, SoapError,
};
use onvif_discovery::soap::{content_type, post, request_url, Endpoints, Operation};

fn envelope(body: &str) -> String {
    format!(
        "<?xml version=\"1.0\" encoding=\"UTF-8\"?><SOAP-ENV:Envelope xmlns:SOAP-ENV=\"http://www.w3.org/2003/05/soap-envelope\" xmlns:tt=\"http://www.onvif.org/ver10/schema\" xmlns:tds=\"http://www.onvif.org/ver10/device/wsdl\" xmlns:trt=\"http://www.onvif.org/ver10/media/wsdl\"><SOAP-ENV:Body>{}</SOAP-ENV:Body></SOAP-ENV:Envelope>",
        body
    )
}

fn document(body: &str) -> Document {
    Document::parse(&envelope(body)).unwrap()
}

const ALL: [Operation; 7] = [
    Operation::GetServices,
    Operation::GetDeviceInformation,
    Operation::GetNetworkInterfaces,
    Operation::GetHostname,
    Operation::GetScopes,
    Operation::GetProfiles,
    Operation::GetStreamUri,
];

#[test]
fn a_request_goes_to_the_control_port_of_the_device() {
    assert_eq!(
        request_url("10.0.0.5", 8899, "onvif/device_service"),
        "http://10.0.0.5:8899/onvif/device_service"
    );
    assert_eq!(request_url("cam", 0, "p"), "http://cam:0/p");
    assert_eq!(request_url("cam", 7, ""), "http://cam:7/");
    assert_eq!(request_url("cam", 80, "x"), "http://cam:80/x");
    assert_eq!(request_url("cam", 65535, "x"), "http://cam:65535/x");
    assert_eq!(request_url("cam", 10000, "x"), "http://cam:10000/x");
}

#[test]
fn the_content_type_names_the_action() {
    assert_eq!(
        content_type("http://www.onvif.org/ver10/media/wsdl/GetProfiles"),
        "application/soap+xml; charset=utf-8; action=\"http://www.onvif.org/ver10/media/wsdl/GetProfiles\""
    );
}

#[test]
fn the_conventional_endpoints() {
    let e = Endpoints::conventional();
    assert_eq!(e.port, 8899);
    assert_eq!(e.device_path, "onvif/device_service");
    assert_eq!(e.media_path, "onvif/Media");
}

#[test]
fn each_operation_is_posted_to_its_service_under_its_action() {
    let e = Endpoints::conventional();
    for op in ALL {
        let request = post("10.0.0.5", op, "main", &e);
        let name = format!("{:?}", op);
        let (path, namespace) = if op.asks_media() {
            ("onvif/Media", "http://www.onvif.org/ver10/media/wsdl")
        } else {
            ("onvif/device_service", "http://www.onvif.org/ver10/device/wsdl")
        };
        assert_eq!(request.url, format!("http://10.0.0.5:8899/{}", path));
        assert_eq!(op.action_uri(), format!("{}/{}", namespace, name));
        assert_eq!(
            request.content_type,
            format!("application/soap+xml; charset=utf-8; action=\"{}/{}\"", namespace, name)
        );
        assert!(request.connection_close);
        assert_eq!(request.body, op.encode("main"));
        let doc = Document::parse(&request.body).unwrap();
        assert_eq!(doc.local_name(2), Some(name.clone()));
        assert_eq!(doc.attribute(2, if op.asks_media() { "trt" } else { "tds" }), Some(namespace.to_string()));
    }
    assert!(Operation::GetProfiles.asks_media());
    assert!(Operation::GetStreamUri.asks_media());
    assert!(!Operation::GetScopes.asks_media());
}

#[test]
fn configured_endpoints_are_used() {
    let e = Endpoints { port: 80, device_path: "dev".to_string(), media_path: "med".to_string() };
    assert_eq!(post("h", Operation::GetHostname, "", &e).url, "http://h:80/dev");
    assert_eq!(post("h", Operation::GetStreamUri, "t", &e).url, "http://h:80/med");
}

#[test]
fn only_the_stream_query_takes_the_token() {
    for op in ALL {
        let a = op.encode("main");
        let b = op.encode("other");
        if op == Operation::GetStreamUri {
            assert_ne!(a, b);
        } else {
            assert_eq!(a, b);
        }
        assert_eq!(a, op.encode("main"));
    }
    assert_eq!(
        Operation::GetStreamUri.encode("main"),
        "<?xml version=\"1.0\" encoding=\"utf-8\"?><s:Envelope xmlns:s=\"http://www.w3.org/2003/05/soap-envelope\"><s:Body><trt:GetStreamUri xmlns:trt=\"http://www.onvif.org/ver10/media/wsdl\" xmlns:tt=\"http://www.onvif.org/ver10/schema\"><trt:StreamSetup><tt:Stream>RTP-Unicast</tt:Stream><tt:Transport><tt:Protocol>RTSP</tt:Protocol></tt:Transport></trt:StreamSetup><trt:ProfileToken>main</trt:ProfileToken></trt:GetStreamUri></s:Body></s:Envelope>"
    );
    assert_eq!(
        Operation::GetDeviceInformation.encode(""),
        "<?xml version=\"1.0\" encoding=\"utf-8\"?><s:Envelope xmlns:s=\"http://www.w3.org/2003/05/soap-envelope\"><s:Body><tds:GetDeviceInformation xmlns:tds=\"http://www.onvif.org/ver10/device/wsdl\"/></s:Body></s:Envelope>"
    );
}

#[test]
fn a_token_with_markup_is_written_as_character_data() {
    let text = Operation::GetStreamUri.encode("a<b>&\"c");
    let doc = Document::parse(&text).unwrap();
    assert_eq!(
        select_texts(&doc, &["Envelope", "Body", "GetStreamUri", "ProfileToken"]),
        vec!["a<b>&\"c"]
    );
}

#[test]
fn the_outcome_of_a_request_is_a_document_or_an_error() {
    let ok = read_answer(&HttpOutcome::Body(envelope("<x/>")));
    assert_eq!(ok.unwrap().len(), 3);
    assert!(matches!(read_answer(&HttpOutcome::TimedOut), Err(SoapError::RequestTimeout)));
    assert!(matches!(read_answer(&HttpOutcome::Failed), Err(SoapError::HttpError)));
    assert!(matches!(
        read_answer(&HttpOutcome::Body("<html>".to_string())),
        Err(SoapError::Decode(DecodeError::MalformedXml))
    ));
    assert!(matches!(
        read_answer(&HttpOutcome::Body(String::new())),
        Err(SoapError::Decode(DecodeError::MalformedXml))
    ));
}

#[test]
fn a_fault_is_the_refusal_of_the_device() {
    let new_form = envelope(
        "<SOAP-ENV:Fault><SOAP-ENV:Code><SOAP-ENV:Value>SOAP-ENV:Sender</SOAP-ENV:Value></SOAP-ENV:Code><SOAP-ENV:Reason><SOAP-ENV:Text xml:lang=\"en\">Sender not Authorized</SOAP-ENV:Text></SOAP-ENV:Reason></SOAP-ENV:Fault>",
    );
    match read_answer(&HttpOutcome::Body(new_form)) {
        Err(SoapError::RemoteFault(text)) => assert_eq!(text, "Sender not Authorized"),
        other => panic!("unexpected answer {:?}", other.err()),
    }
    let old_form = envelope("<s:Fault><faultcode>c</faultcode><faultstring>no such action</faultstring></s:Fault>");
    match read_answer(&HttpOutcome::Body(old_form)) {
        Err(SoapError::RemoteFault(text)) => assert_eq!(text, "no such action"),
        other => panic!("unexpected answer {:?}", other.err()),
    }
    match read_answer(&HttpOutcome::Body(envelope("<Fault/>"))) {
        Err(SoapError::RemoteFault(text)) => assert_eq!(text, ""),
        other => panic!("unexpected answer {:?}", other.err()),
    }
}

#[test]
fn services_are_told_apart_by_their_namespace() {
    let doc = document(
        "<tds:GetServicesResponse><tds:Service><tds:Namespace>http://www.onvif.org/ver10/device/wsdl</tds:Namespace><tds:XAddr>http://10.0.0.5:8899/onvif/device_service</tds:XAddr><tds:Version><tt:Major>2</tt:Major></tds:Version></tds:Service><tds:Service><tds:Namespace>http://www.onvif.org/ver10/media/wsdl</tds:Namespace><tds:XAddr>http://10.0.0.5:8899/onvif/Media</tds:XAddr></tds:Service><tds:Service><tds:Namespace>http://www.onvif.org/ver10/media/wsdl</tds:Namespace><tds:XAddr>http://second</tds:XAddr></tds:Service></tds:GetServicesResponse>",
    );
    let services = read_services(&doc).unwrap();
    assert_eq!(services.len(), 3);
    assert_eq!(services[1].namespace, "http://www.onvif.org/ver10/media/wsdl");
    assert_eq!(
        find_service(&services, "http://www.onvif.org/ver10/device/wsdl"),
        Some("http://10.0.0.5:8899/onvif/device_service".to_string())
    );
    assert_eq!(
        find_service(&services, "http://www.onvif.org/ver10/media/wsdl"),
        Some("http://10.0.0.5:8899/onvif/Media".to_string())
    );
    assert_eq!(find_service(&services, "http://www.onvif.org/ver20/ptz/wsdl"), None);
    assert!(read_services(&document("<tds:GetServicesResponse/>")).unwrap().is_empty());
    assert_eq!(
        read_services(&document("<tds:GetScopesResponse/>")).err(),
        Some(DecodeError::UnexpectedShape)
    );
}

#[test]
fn text_fields_are_the_first_on_their_path() {
    let info = document(
        "<tds:GetDeviceInformationResponse><tds:Manufacturer>M</tds:Manufacturer><tds:SerialNumber>SN-0042</tds:SerialNumber><tds:SerialNumber>other</tds:SerialNumber></tds:GetDeviceInformationResponse>",
    );
    assert_eq!(read_serial_number(&info), Ok("SN-0042".to_string()));
    assert_eq!(read_hostname(&info), Err(DecodeError::FieldNotFound));
    let name = document(
        "<tds:GetHostnameResponse><tds:HostnameInformation><tt:FromDHCP>false</tt:FromDHCP><tt:Name>front-door</tt:Name></tds:HostnameInformation></tds:GetHostnameResponse>",
    );
    assert_eq!(read_hostname(&name), Ok("front-door".to_string()));
    assert_eq!(read_serial_number(&name), Err(DecodeError::FieldNotFound));
    let uri = document(
        "<trt:GetStreamUriResponse><trt:MediaUri><tt:Uri>rtsp://10.0.0.5/s1?a=1&amp;b=2</tt:Uri><tt:Timeout>PT0S</tt:Timeout></trt:MediaUri></trt:GetStreamUriResponse>",
    );
    assert_eq!(read_stream_uri(&uri), Ok("rtsp://10.0.0.5/s1?a=1&b=2".to_string()));
    assert_eq!(read_stream_uri(&name), Err(DecodeError::FieldNotFound));
}

#[test]
fn the_hardware_address_is_that_of_the_first_interface() {
    let two = document(
        "<tds:GetNetworkInterfacesResponse><tds:NetworkInterfaces token=\"eth0\"><tt:Enabled>true</tt:Enabled><tt:Info><tt:Name>eth0</tt:Name><tt:HwAddress>00:11:22:33:44:55</tt:HwAddress></tt:Info></tds:NetworkInterfaces><tds:NetworkInterfaces token=\"wlan0\"><tt:Info><tt:HwAddress>66:77:88:99:aa:bb</tt:HwAddress></tt:Info></tds:NetworkInterfaces></tds:GetNetworkInterfacesResponse>",
    );
    assert_eq!(read_hardware_address(&two), Ok("00:11:22:33:44:55".to_string()));
    let first_without = document(
        "<tds:GetNetworkInterfacesResponse><tds:NetworkInterfaces><tt:Info><tt:Name>lo</tt:Name></tt:Info></tds:NetworkInterfaces><tds:NetworkInterfaces><tt:Info><tt:HwAddress>66:77:88:99:aa:bb</tt:HwAddress></tt:Info></tds:NetworkInterfaces></tds:GetNetworkInterfacesResponse>",
    );
    assert_eq!(read_hardware_address(&first_without), Err(DecodeError::FieldNotFound));
    assert_eq!(
        read_hardware_address(&document("<tds:GetNetworkInterfacesResponse/>")),
        Err(DecodeError::FieldNotFound)
    );
    assert_eq!(
        read_hardware_address(&document(
            "<tds:GetNetworkInterfacesResponse><tds:NetworkInterfaces/></tds:GetNetworkInterfacesResponse>"
        )),
        Err(DecodeError::FieldNotFound)
    );
}

#[test]
fn scopes_come_in_document_order() {
    let doc = document(
        "<tds:GetScopesResponse><tds:Scopes><tt:ScopeDef>Fixed</tt:ScopeDef><tt:ScopeItem>onvif://www.onvif.org/type/video_encoder</tt:ScopeItem></tds:Scopes><tds:Scopes><tt:ScopeDef>Configurable</tt:ScopeDef><tt:ScopeItem>onvif://www.onvif.org/name/NVT</tt:ScopeItem></tds:Scopes></tds:GetScopesResponse>",
    );
    assert_eq!(
        read_scopes(&doc).unwrap(),
        vec!["onvif://www.onvif.org/type/video_encoder", "onvif://www.onvif.org/name/NVT"]
    );
    assert!(read_scopes(&document("<tds:GetScopesResponse/>")).unwrap().is_empty());
    assert_eq!(read_scopes(&document("<x/>")).err(), Some(DecodeError::UnexpectedShape));
}

#[test]
fn profile_tokens_come_in_document_order() {
    let doc = document(
        "<trt:GetProfilesResponse><trt:Profiles fixed=\"true\" token=\"main\"><tt:Name>main</tt:Name></trt:Profiles><trt:Profiles token=\"sub\"/><trt:Profiles token='third'/></trt:GetProfilesResponse>",
    );
    assert_eq!(read_profile_tokens(&doc).unwrap(), vec!["main", "sub", "third"]);
    assert!(read_profile_tokens(&document("<trt:GetProfilesResponse/>")).unwrap().is_empty());
    assert_eq!(
        read_profile_tokens(&document(
            "<trt:GetProfilesResponse><trt:Profiles token=\"main\"/><trt:Profiles/></trt:GetProfilesResponse>"
        ))
        .err(),
        Some(DecodeError::UnexpectedShape)
    );
    assert_eq!(read_profile_tokens(&document("<x/>")).err(), Some(DecodeError::UnexpectedShape));
}

#[test]
fn the_head_of_a_request_names_host_type_and_length() {
    let request = post("10.0.0.5", Operation::GetStreamUri, "é", &Endpoints::conventional());
    let head = request_head(&request);
    assert_eq!(
        head,
        format!(
            "POST /onvif/Media HTTP/1.0\r\nHost: 10.0.0.5:8899\r\nContent-Type: application/soap+xml; charset=utf-8; action=\"http://www.onvif.org/ver10/media/wsdl/GetStreamUri\"\r\nContent-Length: {}\r\nConnection: close\r\n\r\n",
            request.body.len()
        )
    );
    assert_eq!(request.body.len(), request.body.chars().count() + 1);
    let mut kept = post("h", Operation::GetScopes, "", &Endpoints::conventional());
    kept.connection_close = false;
    assert!(request_head(&kept).ends_with("\r\nConnection: keep-alive\r\n\r\n"));
}

#[test]
fn the_body_of_an_answer_follows_its_first_empty_line() {
    assert_eq!(
        response_body("HTTP/1.1 200 OK\r\nContent-Type: x\r\n\r\n<a/>\r\n\r\ntail"),
        Some("<a/>\r\n\r\ntail".to_string())
    );
    assert_eq!(response_body("HTTP/1.0 500 Error\r\n\r\n"), Some(String::new()));
    assert_eq!(response_body("HTTP/1.1 200 OK\r\nContent-Type: x\r\n"), None);
    assert_eq!(response_body("HTTP/1.1 200 OK\n\n<a/>"), None);
    assert_eq!(response_body("<a/>\r\n\r\n<b/>"), None);
    assert_eq!(response_body(""), None);
    assert!(matches!(answered("HTTP/1.1 400 Bad\r\n\r\n<f/>"), HttpOutcome::Body(b) if b == "<f/>"));
    assert!(matches!(answered("garbage"), HttpOutcome::Failed));
}
