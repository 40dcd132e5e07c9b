use onvif_discovery::codec::{decode, encode, Message, Request, Shape};
use onvif_discovery::document::DecodeError;
use onvif_discovery::probe::{create_onvif_discovery_message, ProbeType};
use onvif_discovery::probe_match::decode as decode_matches;
use onvif_discovery::soap::Operation;
use onvif_discovery::text::parse_decimal;

fn envelope(body: &str) -> String {
    format!("<s:Envelope><s:Header/><s:Body>{}</s:Body></s:Envelope>", body)
}

#[test]
fn a_message_is_written_the_same_way_every_time() {
    let probe = Request::Probe {
        message_id: "uuid:7b1d26aa-b02e-4ad2-8aab-4c928298ee0c".to_string(),
        kind: ProbeType::NetworkVideoTransmitter,
    };
    let first = encode(&probe);
    assert_eq!(first, encode(&probe));
    assert_eq!(first, create_onvif_discovery_message("uuid:7b1d26aa-b02e-4ad2-8aab-4c928298ee0c"));
    assert_eq!(first.as_bytes(), encode(&probe).as_bytes());
    let query = Request::Query { operation: Operation::GetStreamUri, token: "main".to_string() };
    assert_eq!(encode(&query), Operation::GetStreamUri.encode("main"));
    assert_eq!(encode(&query), encode(&query));
}

#[test]
fn different_fields_are_written_differently() {
    let a = encode(&Request::Probe { message_id: "a".to_string(), kind: ProbeType::Device });
    let b = encode(&Request::Probe { message_id: "b".to_string(), kind: ProbeType::Device });
    let c = encode(&Request::Probe {
        message_id: "a".to_string(),
        kind: ProbeType::NetworkVideoTransmitter,
    });
    assert_ne!(a, b);
    assert_ne!(a, c);
}

#[test]
fn each_shape_is_read_from_its_answer() {
    let text = envelope("<d:ProbeMatches><d:ProbeMatch><d:XAddrs>u</d:XAddrs></d:ProbeMatch></d:ProbeMatches>");
    match decode(&text, Shape::ProbeMatches).unwrap() {
        Message::ProbeMatches(e) => assert_eq!(e.body.probe_matches.probe_match[0].xaddrs, "u"),
        other => panic!("unexpected message {:?}", other),
    }
    let text = envelope("<GetServicesResponse><Service><Namespace>n</Namespace><XAddr>x</XAddr></Service></GetServicesResponse>");
    match decode(&text, Shape::Services).unwrap() {
        Message::Services(s) => {
            assert_eq!(s.len(), 1);
            assert_eq!(s[0].namespace, "n");
            assert_eq!(s[0].xaddr, "x");
        }
        other => panic!("unexpected message {:?}", other),
    }
    let text = envelope("<GetDeviceInformationResponse><SerialNumber>7</SerialNumber></GetDeviceInformationResponse>");
    assert!(matches!(decode(&text, Shape::DeviceInformation), Ok(Message::SerialNumber(t)) if t == "7"));
    let text = envelope("<GetNetworkInterfacesResponse><NetworkInterfaces><Info><HwAddress>aa:bb</HwAddress></Info></NetworkInterfaces></GetNetworkInterfacesResponse>");
    assert!(matches!(decode(&text, Shape::NetworkInterfaces), Ok(Message::HardwareAddress(t)) if t == "aa:bb"));
    let text = envelope("<GetHostnameResponse><HostnameInformation><Name>cam</Name></HostnameInformation></GetHostnameResponse>");
    assert!(matches!(decode(&text, Shape::Hostname), Ok(Message::Hostname(t)) if t == "cam"));
    let text = envelope("<GetScopesResponse><Scopes><ScopeItem>s1</ScopeItem></Scopes><Scopes><ScopeItem>s2</ScopeItem></Scopes></GetScopesResponse>");
    assert!(matches!(decode(&text, Shape::Scopes), Ok(Message::Scopes(v)) if v == vec!["s1", "s2"]));
    let text = envelope("<GetProfilesResponse><Profiles token='a'/><Profiles token='b'/></GetProfilesResponse>");
    assert!(matches!(decode(&text, Shape::Profiles), Ok(Message::ProfileTokens(v)) if v == vec!["a", "b"]));
    let text = envelope("<GetStreamUriResponse><MediaUri><Uri>rtsp://h/s</Uri></MediaUri></GetStreamUriResponse>");
    assert!(matches!(decode(&text, Shape::StreamUri), Ok(Message::StreamUri(t)) if t == "rtsp://h/s"));
}

#[test]
fn each_error_has_its_input() {
    let shapes = [
        Shape::ProbeMatches,
        Shape::Services,
        Shape::DeviceInformation,
        Shape::NetworkInterfaces,
        Shape::Hostname,
        Shape::Scopes,
        Shape::Profiles,
        Shape::StreamUri,
    ];
    for shape in shapes {
        assert_eq!(decode("<a><b></a>", shape).err(), Some(DecodeError::MalformedXml));
        let expected = match shape {
            Shape::ProbeMatches | Shape::Services | Shape::Scopes | Shape::Profiles => {
                DecodeError::UnexpectedShape
            }
            _ => DecodeError::FieldNotFound,
        };
        assert_eq!(decode(&envelope("<Other/>"), shape).err(), Some(expected));
    }
    let text = envelope("<GetProfilesResponse><Profiles/></GetProfilesResponse>");
    assert_eq!(decode(&text, Shape::Profiles).err(), Some(DecodeError::UnexpectedShape));
    let text = envelope("<GetHostnameResponse><HostnameInformation/></GetHostnameResponse>");
    assert_eq!(decode(&text, Shape::Hostname).err(), Some(DecodeError::FieldNotFound));
}

#[test]
fn a_probe_is_no_answer() {
    let probe = create_onvif_discovery_message("uuid:1");
    assert_eq!(decode(&probe, Shape::ProbeMatches).err(), Some(DecodeError::UnexpectedShape));
    assert_eq!(decode_matches(&probe).err(), Some(DecodeError::UnexpectedShape));
}

#[test]
fn numbers_are_read_in_decimal() {
    assert_eq!(parse_decimal("0"), Some(0));
    assert_eq!(parse_decimal("10"), Some(10));
    assert_eq!(parse_decimal("007"), Some(7));
    assert_eq!(parse_decimal("18446744073709551615"), Some(u64::MAX));
    assert_eq!(parse_decimal("18446744073709551616"), None);
    assert_eq!(parse_decimal("99999999999999999999999"), None);
    assert_eq!(parse_decimal(""), None);
    assert_eq!(parse_decimal("-1"), None);
    assert_eq!(parse_decimal("+1"), None);
    assert_eq!(parse_decimal("1 "), None);
    assert_eq!(parse_decimal("1a"), None);
    assert_eq!(parse_decimal("a1"), None);
    assert_eq!(parse_decimal("١"), None);
    for n in [0u64, 9, 10, 99, 100, 8899, 65535, 1 << 40, u64::MAX] {
        assert_eq!(parse_decimal(&n.to_string()), Some(n));
    }
}

#[test]
fn the_metadata_version_is_a_number() {
    let text = envelope("<ProbeMatches><ProbeMatch><MetadataVersion>10</MetadataVersion></ProbeMatch><ProbeMatch><MetadataVersion>v2</MetadataVersion></ProbeMatch><ProbeMatch/></ProbeMatches>");
    let e = decode_matches(&text).unwrap();
    let m = &e.body.probe_matches.probe_match;
    assert_eq!(m[0].metadata_version_number(), Some(10));
    assert_eq!(m[1].metadata_version_number(), None);
    assert_eq!(m[2].metadata_version, "");
    assert_eq!(m[2].metadata_version_number(), None);
}
