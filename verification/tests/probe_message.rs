use onvif_discovery::document::Document;
use onvif_discovery::probe::{create_onvif_discovery_message, Envelope, ProbeType};
use onvif_discovery::query::{select, select_texts};

#[test]
fn test_create_onvif_discovery_message() {
    let uuid_str = format!("uuid:{}", uuid::Uuid::new_v4());
    let expected_msg = format!(
        "<?xml version=\"1.0\" encoding=\"utf-8\"?><s:Envelope xmlns:s=\"http://www.w3.org/2003/05/soap-envelope\"><s:Header xmlns:w=\"http://schemas.xmlsoap.org/ws/2004/08/addressing\"><w:MessageID>{}</w:MessageID><w:To>urn:schemas-xmlsoap-org:ws:2005:04:discovery</w:To><w:Action>http://schemas.xmlsoap.org/ws/2005/04/discovery/Probe</w:Action></s:Header><s:Body xmlns:d=\"http://schemas.xmlsoap.org/ws/2005/04/discovery\"><d:Probe><d:Types>netwsdl:NetworkVideoTransmitter</d:Types></d:Probe></s:Body></s:Envelope>",
        &uuid_str
    );
    assert_eq!(expected_msg, create_onvif_discovery_message(&uuid_str));
}

#[test]
fn probe_encoding_is_repeatable() {
    let a = create_onvif_discovery_message("uuid:0000");
    let b = create_onvif_discovery_message("uuid:0000");
    assert_eq!(a, b);
    let c = Envelope::probe("uuid:0000", ProbeType::NetworkVideoTransmitter).encode();
    assert_eq!(a, c);
}

#[test]
fn probe_for_any_device_names_the_device_type() {
    let text = Envelope::probe("uuid:1", ProbeType::Device).encode();
    assert!(text.contains("<d:Types>devwsdl:Device</d:Types>"));
    assert_eq!(ProbeType::default(), ProbeType::Device);
}

#[test]
fn probe_escapes_markup_in_the_token() {
    let text = create_onvif_discovery_message("a<b>&c");
    assert!(text.contains("<w:MessageID>a&lt;b&gt;&amp;c</w:MessageID>"));
    let doc = Document::parse(&text).unwrap();
    let ids = select_texts(&doc, &["Envelope", "Header", "MessageID"]);
    assert_eq!(ids, vec!["a<b>&c".to_string()]);
}

#[test]
fn probe_is_a_document_that_reads_back() {
    let text = create_onvif_discovery_message("uuid:42");
    let doc = Document::parse(&text).unwrap();
    assert_eq!(doc.len(), 8);
    assert_eq!(doc.local_name(0).as_deref(), Some("Envelope"));
    assert_eq!(doc.prefix(0).as_deref(), Some("s"));
    assert_eq!(doc.attribute(0, "s"), Some("http://www.w3.org/2003/05/soap-envelope".to_string()));
    let types = select(&doc, &["Envelope", "Body", "Probe", "Types"]);
    assert_eq!(types.len(), 1);
    assert_eq!(doc.text(types[0]).as_deref(), Some("netwsdl:NetworkVideoTransmitter"));
    assert_eq!(doc.parent(types[0]), Some(6));
}
