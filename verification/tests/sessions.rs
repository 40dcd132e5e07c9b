use onvif_discovery::round::Event;
use onvif_discovery::session::{Order, Session, SessionState};

fn answer(xaddr: &str) -> String {
    format!(
        "<e:Envelope><e:Body><d:ProbeMatches><d:ProbeMatch><d:XAddrs>{}</d:XAddrs></d:ProbeMatch></d:ProbeMatches></e:Body></e:Envelope>",
        xaddr
    )
}

fn start(now: u64) -> Event {
    Event::Start { now, token: format!("uuid:{}", now) }
}

#[test]
fn a_session_runs_a_round_on_demand_and_publishes_it() {
    let mut session = Session::new(1000, false);
    assert_eq!(session.state(), SessionState::Waiting);
    assert!(matches!(session.step(start(0)), Order::Send(_)));
    assert_eq!(session.state(), SessionState::Running);
    assert_eq!(session.deadline(), 1000);
    assert!(matches!(session.step(Event::ProbeSent), Order::Receive));
    let text = answer("http://10.0.0.5/onvif/device_service");
    assert!(matches!(session.step(Event::Datagram { now: 300, text }), Order::Receive));
    assert!(matches!(session.step(Event::ReadTimeout { now: 500 }), Order::Receive));
    match session.step(Event::ReadTimeout { now: 1000 }) {
        Order::Publish(devices) => assert_eq!(devices, vec!["10.0.0.5"]),
        other => panic!("unexpected order {:?}", other),
    }
    assert_eq!(session.state(), SessionState::Waiting);
}

#[test]
fn every_round_of_a_session_starts_empty() {
    let mut session = Session::new(100, false);
    session.step(start(0));
    session.step(Event::ProbeSent);
    let text = answer("http://10.0.0.5/onvif/device_service");
    session.step(Event::Datagram { now: 10, text });
    assert!(matches!(session.step(Event::ReadTimeout { now: 100 }), Order::Publish(_)));
    session.step(start(5000));
    assert_eq!(session.deadline(), 5100);
    session.step(Event::ProbeSent);
    match session.step(Event::ReadTimeout { now: 5100 }) {
        Order::Publish(devices) => assert!(devices.is_empty()),
        other => panic!("unexpected order {:?}", other),
    }
}

#[test]
fn a_stop_discards_the_round_in_progress() {
    let mut session = Session::new(1000, false);
    session.step(start(0));
    session.step(Event::ProbeSent);
    let text = answer("http://10.0.0.5/onvif/device_service");
    session.step(Event::Datagram { now: 300, text });
    assert!(matches!(session.step(Event::Stop), Order::Release));
    assert_eq!(session.state(), SessionState::Stopped);
    assert!(matches!(session.step(Event::ReadTimeout { now: 2000 }), Order::Nothing));
    assert!(matches!(session.step(start(3000)), Order::Nothing));
    assert!(matches!(session.step(Event::Stop), Order::Nothing));
    assert_eq!(session.state(), SessionState::Stopped);
}

#[test]
fn a_waiting_session_stops_at_once() {
    let mut session = Session::new(1000, false);
    assert!(matches!(session.step(Event::ReadTimeout { now: 1 }), Order::Nothing));
    assert!(matches!(session.step(Event::ProbeSent), Order::Nothing));
    assert_eq!(session.state(), SessionState::Waiting);
    assert!(matches!(session.step(Event::Stop), Order::Release));
    assert_eq!(session.state(), SessionState::Stopped);
}

#[test]
fn a_failed_send_ends_the_session() {
    let mut session = Session::new(1000, false);
    session.step(start(0));
    assert!(matches!(session.step(Event::SendFailed), Order::Release));
    assert_eq!(session.state(), SessionState::Stopped);
}

#[test]
fn a_second_start_during_a_round_is_passed_over() {
    let mut session = Session::new(1000, false);
    session.step(start(0));
    assert!(matches!(session.step(start(10)), Order::Nothing));
    assert_eq!(session.state(), SessionState::Running);
    assert_eq!(session.deadline(), 1000);
}

#[test]
fn a_session_runs_again_under_a_fresh_token() {
    let mut session = Session::new(1000, false);
    let first = match session.run_again(10) {
        Order::Send(text) => text,
        other => panic!("unexpected order {:?}", other),
    };
    assert_eq!(session.deadline(), 1010);
    session.step(Event::ProbeSent);
    assert!(matches!(session.step(Event::ReadTimeout { now: 1010 }), Order::Publish(_)));
    let second = match session.run_again(2000) {
        Order::Send(text) => text,
        other => panic!("unexpected order {:?}", other),
    };
    assert!(first.contains("<w:MessageID>uuid:"));
    assert_ne!(first, second);
    assert!(matches!(session.run_again(2001), Order::Nothing));
}
