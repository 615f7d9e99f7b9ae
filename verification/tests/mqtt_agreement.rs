//! The codec and the `mqtt` crate, side by side: what one writes the other
//! reads, for every packet type.

use std::io::Cursor;

use mqtt::control::variable_header::ConnectReturnCode;
use mqtt::packet::suback::SubscribeReturnCode;
use mqtt::packet::{ConnackPacket, ConnectPacket, PingreqPacket, PingrespPacket, PublishPacket};
use mqtt::packet::{QoSWithPacketIdentifier, SubackPacket, SubscribePacket, VariablePacket};
use mqtt::{Decodable, Encodable, TopicFilter, TopicName};
use mqtt_session::codec::{decode, encode};
use mqtt_session::packet::{Packet, PublishMessage, QualityOfService, TopicSubscription};

fn written_by_crate<P: Encodable>(packet: &P) -> Vec<u8> {
    let mut bytes = Vec::new();
    packet.encode(&mut bytes).unwrap();
    bytes
}

fn read_by_crate(bytes: &[u8]) -> VariablePacket {
    VariablePacket::decode(&mut Cursor::new(bytes)).unwrap()
}

#[test]
fn connect_agrees_with_crate() {
    for (client_id, keep_alive) in [("dev-1", 10u16), ("", 0), ("ünï", 65535)] {
        let mut theirs = ConnectPacket::new(client_id);
        theirs.set_clean_session(true);
        theirs.set_keep_alive(keep_alive);
        let ours = Packet::Connect { client_id: client_id.to_string(), keep_alive };
        let bytes = encode(&ours).unwrap();
        assert_eq!(bytes, written_by_crate(&theirs));
        assert_eq!(read_by_crate(&bytes), VariablePacket::ConnectPacket(theirs));
        assert_eq!(decode(&bytes), Ok((ours, bytes.len())));
    }
}

#[test]
fn connack_agrees_with_crate() {
    for code in 0..=255u8 {
        for session_present in [false, true] {
            let theirs = ConnackPacket::new(session_present, ConnectReturnCode::from_u8(code));
            let ours = Packet::Connack { session_present, return_code: code };
            let bytes = written_by_crate(&theirs);
            assert_eq!(encode(&ours), Ok(bytes.clone()));
            assert_eq!(decode(&bytes), Ok((ours, 4)));
        }
    }
}

#[test]
fn publish_agrees_with_crate() {
    let cases = [
        (QualityOfService::AtMostOnce, None, QoSWithPacketIdentifier::Level0),
        (QualityOfService::AtLeastOnce, Some(10), QoSWithPacketIdentifier::Level1(10)),
        (QualityOfService::ExactlyOnce, Some(0), QoSWithPacketIdentifier::Level2(0)),
        (QualityOfService::ExactlyOnce, Some(65535), QoSWithPacketIdentifier::Level2(65535)),
    ];
    for (quality_of_service, packet_identifier, qos) in cases {
        for payload in [&b""[..], &b"Hai"[..], &[0xff, 0, 0x80][..], &[b'x'; 300][..]] {
            let theirs = PublishPacket::new(TopicName::new("hello/me").unwrap(), qos, payload);
            let ours = Packet::Publish(PublishMessage {
                topic: "hello/me".to_string(),
                payload: payload.to_vec(),
                quality_of_service,
                packet_identifier,
            });
            let bytes = encode(&ours).unwrap();
            assert_eq!(bytes, written_by_crate(&theirs));
            assert_eq!(read_by_crate(&bytes), VariablePacket::PublishPacket(theirs));
            assert_eq!(decode(&bytes), Ok((ours, bytes.len())));
        }
    }
}

#[test]
fn subscribe_agrees_with_crate() {
    let levels = [
        (QualityOfService::AtMostOnce, mqtt::QualityOfService::Level0),
        (QualityOfService::AtLeastOnce, mqtt::QualityOfService::Level1),
        (QualityOfService::ExactlyOnce, mqtt::QualityOfService::Level2),
    ];
    for (quality_of_service, level) in levels {
        for filter in ["hello/me", "#", "a/+/c", "+/#"] {
            let theirs = SubscribePacket::new(10, vec![(TopicFilter::new(filter).unwrap(), level)]);
            let ours = Packet::Subscribe(TopicSubscription {
                filter: filter.to_string(),
                quality_of_service,
                packet_identifier: 10,
            });
            let bytes = encode(&ours).unwrap();
            assert_eq!(bytes, written_by_crate(&theirs));
            assert_eq!(read_by_crate(&bytes), VariablePacket::SubscribePacket(theirs));
            assert_eq!(decode(&bytes), Ok((ours, bytes.len())));
        }
    }
}

#[test]
fn suback_agrees_with_crate() {
    let theirs = SubackPacket::new(
        10,
        vec![
            SubscribeReturnCode::MaximumQoSLevel0,
            SubscribeReturnCode::MaximumQoSLevel1,
            SubscribeReturnCode::MaximumQoSLevel2,
            SubscribeReturnCode::Failure,
        ],
    );
    let ours = Packet::Suback { packet_identifier: 10, return_codes: vec![0, 1, 2, 0x80] };
    let bytes = written_by_crate(&theirs);
    assert_eq!(encode(&ours), Ok(bytes.clone()));
    assert_eq!(read_by_crate(&bytes), VariablePacket::SubackPacket(theirs));
    assert_eq!(decode(&bytes), Ok((ours, bytes.len())));

    let many = vec![1u8; 200];
    let long = Packet::Suback { packet_identifier: 0xfffe, return_codes: many };
    let bytes = encode(&long).unwrap();
    assert_eq!(
        bytes,
        written_by_crate(&SubackPacket::new(0xfffe, vec![SubscribeReturnCode::MaximumQoSLevel1; 200]))
    );
    assert_eq!(decode(&bytes), Ok((long, bytes.len())));
}

#[test]
fn pings_agree_with_crate() {
    assert_eq!(encode(&Packet::Pingreq), Ok(written_by_crate(&PingreqPacket::new())));
    assert_eq!(encode(&Packet::Pingresp), Ok(written_by_crate(&PingrespPacket::new())));
    assert_eq!(read_by_crate(&encode(&Packet::Pingreq).unwrap()), VariablePacket::PingreqPacket(PingreqPacket::new()));
    assert_eq!(read_by_crate(&encode(&Packet::Pingresp).unwrap()), VariablePacket::PingrespPacket(PingrespPacket::new()));
}
