use onvif_discovery::device_set::{device_base_address, DeviceSet};
use onvif_discovery::probe::create_onvif_discovery_message;
use onvif_discovery::round::{Action, DiscoveryError, Event, Phase, Round};
use onvif_discovery::token::{fresh_message_id, is_fresh_form};

fn answer(relates_to: &str, xaddrs: &[&str]) -> String {
    let mut matches = String::new();
    for x in xaddrs {
        matches.push_str(&format!(
            "<d:ProbeMatch><d:Types>dn:NetworkVideoTransmitter</d:Types><d:XAddrs>{}</d:XAddrs><d:MetadataVersion>1</d:MetadataVersion></d:ProbeMatch>",
            x
        ));
    }
    format!(
        "<?xml version=\"1.0\" encoding=\"UTF-8\"?><e:Envelope xmlns:e=\"http://www.w3.org/2003/05/soap-envelope\" xmlns:w=\"http://schemas.xmlsoap.org/ws/2004/08/addressing\" xmlns:d=\"http://schemas.xmlsoap.org/ws/2005/04/discovery\"><e:Header><w:RelatesTo>{}</w:RelatesTo></e:Header><e:Body><d:ProbeMatches>{}</d:ProbeMatches></e:Body></e:Envelope>",
        relates_to, matches
    )
}

fn listening(timeout: u64, start: u64, match_correlation: bool) -> Round {
    let mut round = Round::new(timeout, match_correlation);
    let sent = round.step(Event::Start { now: start, token: "uuid:t".to_string() });
    assert!(matches!(sent, Action::Send(_)));
    assert!(matches!(round.step(Event::ProbeSent), Action::Receive));
    assert_eq!(round.phase(), Phase::Listening);
    round
}

fn datagram(now: u64, text: String) -> Event {
    Event::Datagram { now, text }
}

#[test]
fn the_host_of_a_service_address_is_the_base_address() {
    assert_eq!(
        device_base_address("http://10.0.0.5/onvif/device_service"),
        Some("10.0.0.5".to_string())
    );
    assert_eq!(
        device_base_address("http://cam.local:8080/onvif/device_service"),
        Some("cam.local:8080".to_string())
    );
    assert_eq!(device_base_address("http:///onvif/device_service"), None);
    assert_eq!(device_base_address("https://10.0.0.5/onvif/device_service"), None);
    assert_eq!(device_base_address("http://10.0.0.5/onvif/Media"), None);
    assert_eq!(device_base_address("http://10.0.0.5/x/onvif/device_service"), None);
    assert_eq!(device_base_address("http://10.0.0.5/onvif/device_service/"), None);
    assert_eq!(device_base_address("uri_one"), None);
    assert_eq!(device_base_address(""), None);
    assert_eq!(device_base_address("http://"), None);
    assert_eq!(device_base_address("/onvif/device_service"), None);
}

#[test]
fn a_set_holds_each_address_once_in_the_order_found() {
    let mut set = DeviceSet::new();
    assert!(set.is_empty());
    set.insert("b".to_string());
    set.insert("a".to_string());
    set.insert("b".to_string());
    assert_eq!(set.len(), 2);
    assert!(set.contains("a"));
    assert!(!set.contains("c"));
    assert_eq!(set.to_vec(), vec!["b", "a"]);
    set.merge(&vec![
        "http://a/onvif/device_service".to_string(),
        "junk".to_string(),
        "http://c/onvif/device_service".to_string(),
        "http://c/onvif/device_service".to_string(),
    ]);
    assert_eq!(set.to_vec(), vec!["b", "a", "c"]);
}

#[test]
fn a_round_sends_the_probe_under_its_token() {
    let mut round = Round::new(1000, false);
    assert_eq!(round.phase(), Phase::Idle);
    assert_eq!(round.result(), None);
    match round.step(Event::Start { now: 50, token: "uuid:abc".to_string() }) {
        Action::Send(text) => assert_eq!(text, create_onvif_discovery_message("uuid:abc")),
        other => panic!("unexpected action {:?}", other),
    }
    assert_eq!(round.phase(), Phase::Probing);
    assert_eq!(round.message_id(), "uuid:abc");
    assert_eq!(round.deadline(), 1050);
    assert!(!round.is_over());
}

#[test]
fn a_round_started_with_a_fresh_token_sends_it() {
    let mut round = Round::new(1000, true);
    let action = round.start(7);
    let id = round.message_id();
    assert!(is_fresh_form(&id));
    match action {
        Action::Send(text) => assert_eq!(text, create_onvif_discovery_message(&id)),
        other => panic!("unexpected action {:?}", other),
    }
    assert_eq!(round.deadline(), 1007);
}

#[test]
fn fresh_tokens_have_the_form_of_a_uuid_and_differ() {
    let a = fresh_message_id();
    let b = fresh_message_id();
    assert_eq!(a.len(), 41);
    assert!(a.starts_with("uuid:"));
    assert!(uuid::Uuid::parse_str(&a[5..]).is_ok());
    assert_eq!(a, a.to_lowercase());
    assert!(is_fresh_form(&a));
    assert!(is_fresh_form(&b));
    assert_ne!(a, b);
    assert!(is_fresh_form("uuid:7b1d26aa-b02e-4ad2-8aab-4c928298ee0c"));
    assert!(!is_fresh_form("uuid:7B1D26AA-B02E-4AD2-8AAB-4C928298EE0C"));
    assert!(!is_fresh_form("urn:uuid:7b1d26aa-b02e-4ad2-8aab-4c928298ee0c"));
    assert!(!is_fresh_form("uuid:7b1d26aab02e4ad28aab4c928298ee0c"));
    assert!(!is_fresh_form("uuid:7b1d26aa-b02e-4ad2-8aab-4c928298ee0"));
    assert!(!is_fresh_form("uuix:7b1d26aa-b02e-4ad2-8aab-4c928298ee0c"));
    assert!(!is_fresh_form(""));
    assert!(!is_fresh_form("uuid:7b1d26aa-b02e-1ad2-8aab-4c928298ee0c"));
    assert!(!is_fresh_form("uuid:7b1d26aa-b02e-4ad2-0aab-4c928298ee0c"));
    assert!(is_fresh_form("uuid:7b1d26aa-b02e-4ad2-baab-4c928298ee0c"));
}

#[test]
fn a_round_tells_how_it_ended() {
    let mut round = Round::new(100, false);
    assert_eq!(round.outcome(), None);
    round.step(Event::Start { now: 0, token: "t".to_string() });
    assert_eq!(round.outcome(), None);
    round.step(Event::ProbeSent);
    assert_eq!(round.outcome(), None);
    round.step(Event::ReadTimeout { now: 100 });
    assert_eq!(round.outcome(), Some(Ok(Vec::new())));

    let mut failed = Round::new(100, false);
    failed.step(Event::Start { now: 0, token: "t".to_string() });
    failed.step(Event::SendFailed);
    assert_eq!(failed.outcome(), Some(Err(DiscoveryError::TransportError)));
}

#[test]
fn the_deadline_does_not_wrap() {
    let mut round = Round::new(u64::MAX, false);
    round.step(Event::Start { now: 10, token: "t".to_string() });
    assert_eq!(round.deadline(), u64::MAX);
}

#[test]
fn a_silent_round_ends_at_its_deadline_with_nothing() {
    let mut round = listening(1000, 0, false);
    let mut now = 0;
    loop {
        now += 200;
        match round.step(Event::ReadTimeout { now }) {
            Action::Receive => assert!(now < 1000),
            Action::Finish => break,
            other => panic!("unexpected action {:?}", other),
        }
    }
    assert_eq!(now, 1000);
    assert_eq!(round.phase(), Phase::Completed);
    assert_eq!(round.result(), Some(Vec::new()));
}

#[test]
fn a_round_of_no_duration_ends_at_the_first_read() {
    let mut round = listening(0, 500, false);
    assert!(matches!(round.step(Event::ReadTimeout { now: 700 }), Action::Finish));
    assert_eq!(round.result(), Some(Vec::new()));
}

#[test]
fn discovery_response_within_one_second_yields_the_device() {
    let mut round = listening(1000, 0, false);
    let text = answer("uuid:t", &["http://10.0.0.5/onvif/device_service"]);
    assert!(matches!(round.step(datagram(120, text)), Action::Receive));
    assert!(matches!(round.step(Event::ReadTimeout { now: 320 }), Action::Receive));
    assert!(matches!(round.step(Event::ReadTimeout { now: 1000 }), Action::Finish));
    assert_eq!(round.result(), Some(vec!["10.0.0.5".to_string()]));
}

#[test]
fn only_what_arrives_before_the_deadline_counts() {
    let mut round = listening(1000, 100, false);
    let early = answer("x", &["http://10.0.0.1/onvif/device_service"]);
    let edge = answer("x", &["http://10.0.0.2/onvif/device_service"]);
    let late = answer("x", &["http://10.0.0.3/onvif/device_service"]);
    assert!(matches!(round.step(datagram(1099, early)), Action::Receive));
    assert!(matches!(round.step(datagram(1100, edge)), Action::Finish));
    assert!(matches!(round.step(datagram(1101, late)), Action::Nothing));
    assert_eq!(round.phase(), Phase::Completed);
    assert_eq!(round.result(), Some(vec!["10.0.0.1".to_string()]));
}

#[test]
fn duplicates_and_malformed_entries_are_passed_over() {
    let mut round = listening(1000, 0, false);
    let a = answer(
        "x",
        &[
            "http://10.0.0.1/onvif/device_service http://10.0.0.2/onvif/device_service",
            "ftp://nope http://10.0.0.1/onvif/device_service",
        ],
    );
    round.step(datagram(10, a));
    round.step(datagram(20, "this is no xml".to_string()));
    round.step(datagram(30, "<a><b/></a>".to_string()));
    round.step(datagram(40, answer("x", &["http://10.0.0.3/onvif/device_service"])));
    round.step(datagram(50, answer("x", &["http://10.0.0.2/onvif/device_service"])));
    assert_eq!(round.phase(), Phase::Listening);
    assert_eq!(round.devices(), vec!["10.0.0.1", "10.0.0.2", "10.0.0.3"]);
    assert_eq!(round.result(), None);
}

#[test]
fn a_round_that_matches_tokens_passes_over_other_answers() {
    let mine = answer("uuid:t", &["http://10.0.0.1/onvif/device_service"]);
    let other = answer("uuid:other", &["http://10.0.0.2/onvif/device_service"]);
    let silent = answer("", &["http://10.0.0.3/onvif/device_service"]);

    let mut strict = listening(1000, 0, true);
    strict.step(datagram(1, other.clone()));
    strict.step(datagram(2, mine.clone()));
    strict.step(datagram(3, silent.clone()));
    assert_eq!(strict.devices(), vec!["10.0.0.1"]);

    let mut lenient = listening(1000, 0, false);
    lenient.step(datagram(1, other));
    lenient.step(datagram(2, mine));
    lenient.step(datagram(3, silent));
    assert_eq!(lenient.devices(), vec!["10.0.0.2", "10.0.0.1", "10.0.0.3"]);
}

#[test]
fn a_stop_ends_the_round_with_what_was_found() {
    let mut round = listening(1000, 0, false);
    round.step(datagram(10, answer("x", &["http://10.0.0.1/onvif/device_service"])));
    assert!(matches!(round.step(Event::Stop), Action::Finish));
    assert_eq!(round.phase(), Phase::Cancelled);
    assert!(round.is_over());
    assert_eq!(round.result(), Some(vec!["10.0.0.1".to_string()]));
    assert!(matches!(round.step(Event::ReadTimeout { now: 20 }), Action::Nothing));

    let mut idle = Round::new(1000, false);
    assert!(matches!(idle.step(Event::Stop), Action::Finish));
    assert_eq!(idle.result(), Some(Vec::new()));

    let mut probing = Round::new(1000, false);
    probing.step(Event::Start { now: 0, token: "t".to_string() });
    assert!(matches!(probing.step(Event::Stop), Action::Finish));
    assert_eq!(probing.phase(), Phase::Cancelled);
}

#[test]
fn a_transport_failure_leaves_no_result() {
    let mut round = Round::new(1000, false);
    round.step(Event::Start { now: 0, token: "t".to_string() });
    assert!(matches!(round.step(Event::SendFailed), Action::Abort));
    assert_eq!(round.phase(), Phase::Failed);
    assert_eq!(round.result(), None);
    assert!(round.is_over());
    assert!(matches!(round.step(Event::ProbeSent), Action::Nothing));

    let mut round = listening(1000, 0, false);
    round.step(datagram(10, answer("x", &["http://10.0.0.1/onvif/device_service"])));
    assert!(matches!(round.step(Event::ReceiveFailed), Action::Abort));
    assert_eq!(round.phase(), Phase::Failed);
    assert_eq!(round.result(), None);
}

#[test]
fn events_out_of_place_change_nothing() {
    let mut round = Round::new(1000, false);
    assert!(matches!(round.step(Event::ProbeSent), Action::Nothing));
    assert!(matches!(round.step(Event::SendFailed), Action::Nothing));
    assert!(matches!(round.step(Event::ReadTimeout { now: 5000 }), Action::Nothing));
    assert!(matches!(round.step(Event::ReceiveFailed), Action::Nothing));
    assert!(matches!(round.step(datagram(1, "<a/>".to_string())), Action::Nothing));
    assert_eq!(round.phase(), Phase::Idle);
    round.step(Event::Start { now: 0, token: "t".to_string() });
    assert!(matches!(round.step(Event::ReadTimeout { now: 5000 }), Action::Nothing));
    assert!(matches!(
        round.step(Event::Start { now: 9, token: "again".to_string() }),
        Action::Nothing
    ));
    assert_eq!(round.phase(), Phase::Probing);
    assert_eq!(round.message_id(), "t");
    assert_eq!(round.deadline(), 1000);
}

#[test]
fn test_timeout_for_simple_onvif_discover() {
    let timeout_secs: u64 = 2;
    let read_deadline: u64 = onvif_discovery::transport::READ_DEADLINE_MS;
    let mut round = Round::new(timeout_secs * 1000, false);
    round.start(0);
    round.step(Event::ProbeSent);
    let mut now = 0;
    while !round.is_over() {
        now += read_deadline;
        round.step(Event::ReadTimeout { now });
    }
    let duration = now;
    let wait_for_call_millis = timeout_secs * 1000 + 200;
    assert!(duration <= wait_for_call_millis);
    assert!(duration >= timeout_secs * 1000);
    assert_eq!(round.outcome(), Some(Ok(Vec::new())));
}
