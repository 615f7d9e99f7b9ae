use mqtt_session::packet::{Packet, ProtocolError, PublishMessage, QualityOfService};
use mqtt_session::packet::TopicSubscription;
use mqtt_session::session::{BrokerEndpoint, Session, SessionError, SessionState};

fn endpoint(client_id: &str) -> BrokerEndpoint {
    BrokerEndpoint {
        address: "127.0.0.1:1883".to_string(),
        client_id: client_id.to_string(),
        username: "user".to_string(),
        password: "open sesame".to_string(),
        keep_alive_seconds: 10,
    }
}

fn subscription(id: u16) -> TopicSubscription {
    TopicSubscription {
        filter: "hello/me".to_string(),
        quality_of_service: QualityOfService::AtMostOnce,
        packet_identifier: id,
    }
}

fn message(topic: &str) -> PublishMessage {
    PublishMessage {
        topic: topic.to_string(),
        payload: b"Hai".to_vec(),
        quality_of_service: QualityOfService::AtLeastOnce,
        packet_identifier: Some(10),
    }
}

fn accepted() -> Result<Packet, ProtocolError> {
    Ok(Packet::Connack { session_present: false, return_code: 0 })
}

fn connected_session() -> Session {
    let mut session = Session::new(endpoint("dev-1"));
    session.connect(true).unwrap();
    session.on_connack(accepted()).unwrap();
    session
}

fn subscribing_session(id: u16) -> Session {
    let mut session = connected_session();
    session.subscribe(&subscription(id)).unwrap();
    session
}

#[test]
fn new_session_is_disconnected() {
    let session = Session::new(endpoint("dev-1"));
    assert_eq!(session.state(), SessionState::Disconnected);
    assert!(!session.connected());
    assert_eq!(session.endpoint(), &endpoint("dev-1"));
}

#[test]
fn connect_sends_connect_frame() {
    let mut session = Session::new(endpoint("dev-1"));
    let frame = session.connect(true).unwrap();
    assert_eq!(
        frame,
        vec![0x10, 17, 0, 4, b'M', b'Q', b'T', b'T', 4, 2, 0, 10, 0, 5, b'd', b'e', b'v', b'-', b'1']
    );
    assert_eq!(session.state(), SessionState::Connecting);
    assert!(!session.connected());
}

#[test]
fn socket_that_does_not_open_is_a_connection_error() {
    let mut session = Session::new(endpoint("dev-1"));
    assert_eq!(session.connect(false), Err(SessionError::ConnectionError));
    assert_eq!(session.state(), SessionState::Failed);
    assert_eq!(session.connect(true), Err(SessionError::ProtocolViolation));
    assert_eq!(session.state(), SessionState::Failed);
}

#[test]
fn client_identifier_too_long_for_the_wire_fails_the_session() {
    let mut session = Session::new(endpoint(&"c".repeat(65536)));
    assert_eq!(session.connect(true), Err(SessionError::Protocol(ProtocolError::Malformed)));
    assert_eq!(session.state(), SessionState::Failed);
}

#[test]
fn accepted_connack_connects() {
    let mut session = Session::new(endpoint("dev-1"));
    session.connect(true).unwrap();
    assert_eq!(session.on_connack(accepted()), Ok(()));
    assert_eq!(session.state(), SessionState::Connected);
    assert!(session.connected());
}

#[test]
fn every_other_return_code_is_an_authentication_error() {
    for code in 1..=255u8 {
        let mut session = Session::new(endpoint("dev-1"));
        session.connect(true).unwrap();
        let reply = Ok(Packet::Connack { session_present: false, return_code: code });
        assert_eq!(session.on_connack(reply), Err(SessionError::AuthenticationError(code)));
        assert_eq!(session.state(), SessionState::Failed);
        assert!(!session.connected());
    }
}

#[test]
fn anything_but_a_connack_fails_the_connect() {
    for reply in [
        Ok(Packet::Pingresp),
        Ok(Packet::Suback { packet_identifier: 10, return_codes: vec![0] }),
        Ok(Packet::Publish(message("a"))),
    ] {
        let mut session = Session::new(endpoint("dev-1"));
        session.connect(true).unwrap();
        assert_eq!(session.on_connack(reply), Err(SessionError::ProtocolViolation));
        assert_eq!(session.state(), SessionState::Failed);
    }
    for error in [ProtocolError::Malformed, ProtocolError::Unsupported] {
        let mut session = Session::new(endpoint("dev-1"));
        session.connect(true).unwrap();
        assert_eq!(session.on_connack(Err(error)), Err(SessionError::Protocol(error)));
        assert_eq!(session.state(), SessionState::Failed);
    }
}

#[test]
fn subscribe_sends_subscribe_frame() {
    let mut session = connected_session();
    let frame = session.subscribe(&subscription(10)).unwrap();
    let mut expected = vec![0x82, 13, 0, 10, 0, 8];
    expected.extend_from_slice(b"hello/me");
    expected.push(0);
    assert_eq!(frame, expected);
    assert_eq!(session.state(), SessionState::Subscribing);
    assert!(session.connected());
}

#[test]
fn subscribe_with_a_bad_filter_changes_nothing() {
    let mut session = connected_session();
    let mut bad = subscription(10);
    bad.filter = "a/#/b".to_string();
    assert_eq!(session.subscribe(&bad), Err(SessionError::Protocol(ProtocolError::Malformed)));
    assert_eq!(session.state(), SessionState::Connected);
    assert!(session.subscribe(&subscription(10)).is_ok());
}

#[test]
fn matching_suback_makes_ready() {
    let mut session = subscribing_session(10);
    let reply = Ok(Packet::Suback { packet_identifier: 10, return_codes: vec![0] });
    assert_eq!(session.on_suback(reply), Ok(true));
    assert_eq!(session.state(), SessionState::Ready);
}

#[test]
fn suback_for_another_identifier_is_a_protocol_violation() {
    for (awaited, got) in [(10u16, 11u16), (10, 9), (0, 65535), (65535, 0), (7, 10)] {
        let mut session = subscribing_session(awaited);
        let reply = Ok(Packet::Suback { packet_identifier: got, return_codes: vec![0] });
        assert_eq!(session.on_suback(reply), Err(SessionError::ProtocolViolation));
        assert_eq!(session.state(), SessionState::Failed);
    }
}

#[test]
fn other_packets_are_passed_over_while_subscribing() {
    let mut session = subscribing_session(10);
    for reply in [
        Ok(Packet::Pingresp),
        Ok(Packet::Connack { session_present: false, return_code: 0 }),
        Ok(Packet::Publish(message("hello/me"))),
        Err(ProtocolError::Malformed),
        Err(ProtocolError::Unsupported),
    ] {
        assert_eq!(session.on_suback(reply), Ok(false));
        assert_eq!(session.state(), SessionState::Subscribing);
    }
    let reply = Ok(Packet::Suback { packet_identifier: 10, return_codes: vec![0x80] });
    assert_eq!(session.on_suback(reply), Ok(true));
    assert_eq!(session.state(), SessionState::Ready);
}

#[test]
fn steps_out_of_sequence_are_violations_and_change_nothing() {
    let mut fresh = Session::new(endpoint("dev-1"));
    assert_eq!(fresh.on_connack(accepted()), Err(SessionError::ProtocolViolation));
    assert_eq!(fresh.subscribe(&subscription(1)), Err(SessionError::ProtocolViolation));
    assert_eq!(fresh.on_suback(Ok(Packet::Pingresp)), Err(SessionError::ProtocolViolation));
    assert_eq!(fresh.publish(&message("a")), Err(SessionError::ProtocolViolation));
    assert_eq!(fresh.state(), SessionState::Disconnected);

    let mut connected = connected_session();
    assert_eq!(connected.connect(true), Err(SessionError::ProtocolViolation));
    assert_eq!(connected.on_connack(accepted()), Err(SessionError::ProtocolViolation));
    assert_eq!(connected.on_suback(Ok(Packet::Pingresp)), Err(SessionError::ProtocolViolation));
    assert_eq!(connected.state(), SessionState::Connected);

    let mut subscribing = subscribing_session(10);
    assert_eq!(subscribing.subscribe(&subscription(11)), Err(SessionError::ProtocolViolation));
    assert_eq!(subscribing.state(), SessionState::Subscribing);
    let reply = Ok(Packet::Suback { packet_identifier: 10, return_codes: vec![0] });
    assert_eq!(subscribing.on_suback(reply), Ok(true));
    assert_eq!(subscribing.subscribe(&subscription(11)), Err(SessionError::ProtocolViolation));
    assert_eq!(subscribing.state(), SessionState::Ready);
}

#[test]
fn publish_gives_the_frame_while_connected() {
    let mut expected = vec![0x32, 15, 0, 8];
    expected.extend_from_slice(b"hello/me");
    expected.extend_from_slice(&[0, 10]);
    expected.extend_from_slice(b"Hai");

    let connected = connected_session();
    assert_eq!(connected.publish(&message("hello/me")), Ok(expected.clone()));
    let subscribing = subscribing_session(10);
    assert_eq!(subscribing.publish(&message("hello/me")), Ok(expected.clone()));
    let mut ready = subscribing_session(10);
    ready.on_suback(Ok(Packet::Suback { packet_identifier: 10, return_codes: vec![0] })).unwrap();
    assert_eq!(ready.publish(&message("hello/me")), Ok(expected));
    assert_eq!(ready.state(), SessionState::Ready);
}

#[test]
fn publish_refuses_a_message_the_wire_cannot_carry() {
    let session = connected_session();
    let bad = Err(SessionError::Protocol(ProtocolError::Malformed));
    assert_eq!(session.publish(&message("a/#")), bad);
    assert_eq!(session.publish(&message("")), bad);
    let mut without_id = message("a");
    without_id.packet_identifier = None;
    assert_eq!(session.publish(&without_id), bad);
}

#[test]
fn publish_on_a_session_that_is_not_connected_is_a_violation() {
    let mut connecting = Session::new(endpoint("dev-1"));
    connecting.connect(true).unwrap();
    assert_eq!(connecting.publish(&message("a")), Err(SessionError::ProtocolViolation));
    let mut failed = connected_session();
    assert_eq!(failed.connection_lost(), SessionError::ConnectionError);
    assert_eq!(failed.state(), SessionState::Failed);
    assert_eq!(failed.publish(&message("a")), Err(SessionError::ProtocolViolation));
}

#[test]
fn connection_lost_fails_the_session_in_every_state() {
    let mut sessions = vec![
        Session::new(endpoint("a")),
        connected_session(),
        subscribing_session(3),
    ];
    for session in sessions.iter_mut() {
        assert_eq!(session.connection_lost(), SessionError::ConnectionError);
        assert_eq!(session.state(), SessionState::Failed);
        assert!(!session.connected());
    }
}
