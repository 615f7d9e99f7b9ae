use mqtt_session::codec::encode;
use mqtt_session::dispatcher::{payload_hex, payload_text, render_payload, Inbound};
use mqtt_session::dispatcher::InboundDispatcher;
use mqtt_session::packet::{Packet, PublishMessage, QualityOfService, TopicSubscription};

fn inbound_message(topic: &str, payload: &[u8]) -> PublishMessage {
    PublishMessage {
        topic: topic.to_string(),
        payload: payload.to_vec(),
        quality_of_service: QualityOfService::AtMostOnce,
        packet_identifier: None,
    }
}

fn inbound_frame(topic: &str, payload: &[u8]) -> Vec<u8> {
    encode(&Packet::Publish(inbound_message(topic, payload))).unwrap()
}

fn damaged_stream() -> (Vec<u8>, Vec<Inbound>) {
    let mut stream = inbound_frame("hello/me", b"one");
    stream.extend_from_slice(&[0x30, 4, 0, 9, b'x', b'y']);
    stream.extend_from_slice(&inbound_frame("hello/me", b"two"));
    let found = vec![
        Inbound::Message(inbound_message("hello/me", b"one")),
        Inbound::Malformed,
        Inbound::Message(inbound_message("hello/me", b"two")),
    ];
    (stream, found)
}

#[test]
fn damaged_frame_between_two_messages_is_passed_over() {
    let (stream, found) = damaged_stream();
    let mut dispatcher = InboundDispatcher::new();
    assert_eq!(dispatcher.feed(&stream), found);
    assert!(!dispatcher.has_failed());
    assert_eq!(dispatcher.pending_len(), 0);
}

#[test]
fn the_pieces_in_which_bytes_arrive_do_not_matter() {
    let (stream, found) = damaged_stream();
    for first in 0..=stream.len() {
        for second in first..=stream.len() {
            let mut dispatcher = InboundDispatcher::new();
            let mut got = dispatcher.feed(&stream[..first]);
            got.extend(dispatcher.feed(&stream[first..second]));
            got.extend(dispatcher.feed(&stream[second..]));
            assert_eq!(got, found, "cut at {} and {}", first, second);
            assert!(!dispatcher.has_failed());
            assert_eq!(dispatcher.pending_len(), 0);
        }
    }
    let mut dispatcher = InboundDispatcher::new();
    let mut got = Vec::new();
    for byte in &stream {
        got.extend(dispatcher.feed(&[*byte]));
    }
    assert_eq!(got, found);
}

#[test]
fn unfinished_frame_is_held_back() {
    let frame = inbound_frame("t", b"payload");
    let mut dispatcher = InboundDispatcher::new();
    assert_eq!(dispatcher.feed(&frame[..5]), vec![]);
    assert_eq!(dispatcher.pending_len(), 5);
    assert_eq!(dispatcher.feed(&[]), vec![]);
    assert_eq!(dispatcher.pending_len(), 5);
    assert_eq!(dispatcher.feed(&frame[5..]), vec![Inbound::Message(inbound_message("t", b"payload"))]);
    assert_eq!(dispatcher.pending_len(), 0);
}

#[test]
fn pingresp_records_that_the_broker_is_alive() {
    let mut dispatcher = InboundDispatcher::new();
    assert!(!dispatcher.broker_alive());
    assert_eq!(dispatcher.feed(&inbound_frame("t", b"")), vec![Inbound::Message(inbound_message("t", b""))]);
    assert!(!dispatcher.broker_alive());
    assert_eq!(dispatcher.feed(&[0xd0, 0]), vec![Inbound::BrokerAlive]);
    assert!(dispatcher.broker_alive());
    assert_eq!(dispatcher.feed(&inbound_frame("t", b"")).len(), 1);
    assert!(dispatcher.broker_alive());
}

#[test]
fn other_packet_types_are_ignored() {
    let mut stream = vec![0x40, 2, 0, 10];
    stream.extend_from_slice(&[0x20, 2, 0, 0]);
    stream.extend_from_slice(&[0x90, 3, 0, 10, 0]);
    stream.extend_from_slice(&[0xc0, 0]);
    stream.extend_from_slice(&[0xb0, 2, 0, 1]);
    stream.extend_from_slice(
        &encode(&Packet::Subscribe(TopicSubscription {
            filter: "a".to_string(),
            quality_of_service: QualityOfService::AtMostOnce,
            packet_identifier: 1,
        }))
        .unwrap(),
    );
    stream.extend_from_slice(&encode(&Packet::Connect { client_id: "c".to_string(), keep_alive: 1 }).unwrap());
    let mut dispatcher = InboundDispatcher::new();
    assert_eq!(dispatcher.feed(&stream), vec![Inbound::Ignored; 7]);
    assert!(!dispatcher.has_failed());
    assert!(!dispatcher.broker_alive());
}

#[test]
fn reserved_types_and_bad_bodies_are_malformed() {
    let mut stream = vec![0x00, 0];
    stream.extend_from_slice(&[0xf0, 1, 7]);
    stream.extend_from_slice(&[0xd0, 1, 7]);
    stream.extend_from_slice(&[0x36, 3, 0, 1, b'a']);
    stream.extend_from_slice(&[0x30, 3, 0, 1, b'+']);
    let mut dispatcher = InboundDispatcher::new();
    assert_eq!(dispatcher.feed(&stream), vec![Inbound::Malformed; 5]);
    assert!(!dispatcher.has_failed());
}

#[test]
fn stream_without_a_frame_boundary_fails_the_dispatcher() {
    let mut stream = inbound_frame("t", b"before");
    stream.extend_from_slice(&[0x30, 0x80, 0x80, 0x80, 0x80, 1]);
    stream.extend_from_slice(&inbound_frame("t", b"after"));
    let mut dispatcher = InboundDispatcher::new();
    assert_eq!(dispatcher.feed(&stream), vec![Inbound::Message(inbound_message("t", b"before"))]);
    assert!(dispatcher.has_failed());
    let held = dispatcher.pending_len();
    assert_eq!(held, stream.len() - inbound_frame("t", b"before").len());
    assert_eq!(dispatcher.feed(&inbound_frame("t", b"later")), vec![]);
    assert!(dispatcher.has_failed());
    assert_eq!(dispatcher.pending_len(), held);
}

#[test]
fn payload_text_is_given_for_utf8_only() {
    assert_eq!(payload_text(b"Hai"), Some("Hai".to_string()));
    assert_eq!(payload_text(b""), Some(String::new()));
    assert_eq!(payload_text("héllo ☂".as_bytes()), Some("héllo ☂".to_string()));
    assert_eq!(payload_text(&[0xff, 0xfe]), None);
    assert_eq!(payload_text(&[b'a', 0x80]), None);
    assert_eq!(payload_text(&[0xc3]), None);
    assert_eq!(payload_text(&[0xed, 0xa0, 0x80]), None);
}

#[test]
fn message_with_a_binary_payload_is_delivered() {
    let mut dispatcher = InboundDispatcher::new();
    let found = dispatcher.feed(&inbound_frame("bin", &[0xff, 0, 0x80]));
    assert_eq!(found, vec![Inbound::Message(inbound_message("bin", &[0xff, 0, 0x80]))]);
    match &found[0] {
        Inbound::Message(message) => assert_eq!(payload_text(&message.payload), None),
        other => panic!("unexpected {:?}", other),
    }
}

#[test]
fn payload_in_hexadecimal_digits() {
    assert_eq!(payload_hex(&[]), "");
    assert_eq!(payload_hex(&[0x00, 0x0f, 0xf0, 0xff, 0x9a, 0x5c]), "000ff0ff9a5c");
    let every_byte: Vec<u8> = (0..=255).collect();
    let expected: String = every_byte.iter().map(|b| format!("{:02x}", b)).collect();
    assert_eq!(payload_hex(&every_byte), expected);
}

#[test]
fn payload_is_rendered_as_text_or_in_hexadecimal_digits() {
    assert_eq!(render_payload(b"Hai"), "Hai");
    assert_eq!(render_payload(b""), "");
    assert_eq!(render_payload("☂".as_bytes()), "☂");
    assert_eq!(render_payload(&[0xff, 0x00, 0x41]), "ff0041");
    assert_eq!(render_payload(&[0xe2, 0x98]), "e298");
}

#[test]
fn stream_that_ends_inside_a_frame_fails_the_dispatcher() {
    let mut dispatcher = InboundDispatcher::new();
    assert_eq!(dispatcher.feed(&[0x30, 0x0b, 0x00, 0x08]), vec![]);
    assert!(!dispatcher.has_failed());
    assert_eq!(dispatcher.pending_len(), 4);
    dispatcher.stream_ended();
    assert!(dispatcher.has_failed());
    assert_eq!(dispatcher.pending_len(), 4);
    // Nothing is read any more, not even what would complete the frame.
    assert_eq!(dispatcher.feed(b"hello/meHai"), vec![]);
    assert_eq!(dispatcher.feed(&[0xd0, 0]), vec![]);
    assert!(dispatcher.has_failed());
    assert!(!dispatcher.broker_alive());
    assert_eq!(dispatcher.pending_len(), 4);
}

#[test]
fn stream_that_ends_between_frames_fails_the_dispatcher() {
    let mut dispatcher = InboundDispatcher::new();
    assert_eq!(dispatcher.feed(&[0xd0, 0]), vec![Inbound::BrokerAlive]);
    dispatcher.stream_ended();
    assert!(dispatcher.has_failed());
    assert!(dispatcher.broker_alive());
    assert_eq!(dispatcher.pending_len(), 0);
    assert_eq!(dispatcher.feed(&[0xd0, 0]), vec![]);
}
