//! The calls into the `mqtt` crate and into the parts of `std` that come
//! without a contract. Each contract below is taken on trust from the source or
//! the documentation of the function it describes.

use vstd::prelude::*;
use vstd::utf8::{encode_utf8, valid_utf8};
use crate::packet::{PacketView, PublishMessage, PublishMessageView, QualityOfService};
use crate::packet::TopicSubscriptionView;
use crate::wire::{connect_body, frame, frame_body, is_frame, parse_connack, parse_publish};
use crate::wire::{parse_suback, publish_body, subscribe_body, topic_fits};
use crate::wire::{valid_topic_filter, valid_topic_name};
use crate::wire::{MAX_REMAINING_LENGTH, MAX_STRING_LENGTH, PUBLISH};

verus! {

/// The message that a PUBLISH frame carries for the given arguments: the
/// packet identifier counts only above quality of service at most once.
pub open spec fn published(
    topic: Seq<char>,
    quality_of_service: QualityOfService,
    packet_identifier: u16,
    payload: Seq<u8>,
) -> PublishMessageView {
    PublishMessageView {
        topic,
        payload,
        quality_of_service,
        packet_identifier: if quality_of_service == QualityOfService::AtMostOnce {
            None
        } else {
            Some(packet_identifier)
        },
    }
}

/// `mqtt::packet::ConnectPacket::new`, `set_clean_session(true)`,
/// `set_keep_alive` and `mqtt::Encodable::encode` into a fresh buffer.
///
/// Claims that the crate writes a CONNECT frame for protocol "MQTT" level 4
/// with only the clean-session flag, the given keep-alive and the client
/// identifier, and nothing else. The crate asserts that the identifier fits
/// a 16-bit length.
#[verifier::external_body]
pub(crate) fn connect_frame(client_id: &str, keep_alive: u16) -> (r: Vec<u8>)
    requires
        encode_utf8(client_id@).len() <= MAX_STRING_LENGTH,
    ensures
        r@ == frame(0x10, connect_body(client_id@, keep_alive)),
{
    let mut packet = mqtt::packet::ConnectPacket::new(client_id);
    packet.set_clean_session(true);
    packet.set_keep_alive(keep_alive);
    let mut bytes = Vec::new();
    let _ = mqtt::Encodable::encode(&packet, &mut bytes);
    bytes
}

/// `mqtt::TopicName::new`, `mqtt::packet::PublishPacket::new` and
/// `mqtt::Encodable::encode` into a fresh buffer.
///
/// Claims that the crate refuses exactly the topics that are no topic name,
/// and otherwise writes a PUBLISH frame with the duplicate and retain flags
/// clear: the topic, the packet identifier unless the quality of service is
/// at most once, then the payload as it is. The crate counts the body in
/// 32 bits and writes its length as it comes: only a body within the
/// remaining-length limit makes a frame.
#[verifier::external_body]
pub(crate) fn publish_frame(
    topic: &str,
    quality_of_service: QualityOfService,
    packet_identifier: u16,
    payload: &[u8],
) -> (r: Option<Vec<u8>>)
    requires
        publish_body(published(topic@, quality_of_service, packet_identifier, payload@)).len()
            <= MAX_REMAINING_LENGTH,
    ensures
        !valid_topic_name(topic@) ==> r is None,
        valid_topic_name(topic@) ==> r is Some && r->0@ == frame(
            (0x30 + 2 * quality_of_service.level()) as u8,
            publish_body(published(topic@, quality_of_service, packet_identifier, payload@)),
        ),
{
    let name = mqtt::TopicName::new(topic).ok()?;
    let level = match quality_of_service {
        QualityOfService::AtMostOnce => mqtt::QualityOfService::Level0,
        QualityOfService::AtLeastOnce => mqtt::QualityOfService::Level1,
        QualityOfService::ExactlyOnce => mqtt::QualityOfService::Level2,
    };
    let qos = mqtt::packet::QoSWithPacketIdentifier::new(level, packet_identifier);
    let packet = mqtt::packet::PublishPacket::new(name, qos, payload);
    let mut bytes = Vec::new();
    mqtt::Encodable::encode(&packet, &mut bytes).ok()?;
    Some(bytes)
}

/// `mqtt::TopicFilter::new`, `mqtt::packet::SubscribePacket::new` and
/// `mqtt::Encodable::encode` into a fresh buffer.
///
/// Claims that the crate refuses exactly the filters that are no topic
/// filter, and otherwise writes a SUBSCRIBE frame with the packet
/// identifier, the one filter and its requested quality of service.
#[verifier::external_body]
pub(crate) fn subscribe_frame(
    filter: &str,
    quality_of_service: QualityOfService,
    packet_identifier: u16,
) -> (r: Option<Vec<u8>>)
    ensures
        !valid_topic_filter(filter@) ==> r is None,
        valid_topic_filter(filter@) ==> r is Some && r->0@ == frame(
            0x82,
            subscribe_body(
                (TopicSubscriptionView { filter: filter@, quality_of_service, packet_identifier }),
            ),
        ),
{
    let filter = mqtt::TopicFilter::new(filter).ok()?;
    let level = match quality_of_service {
        QualityOfService::AtMostOnce => mqtt::QualityOfService::Level0,
        QualityOfService::AtLeastOnce => mqtt::QualityOfService::Level1,
        QualityOfService::ExactlyOnce => mqtt::QualityOfService::Level2,
    };
    let packet = mqtt::packet::SubscribePacket::new(packet_identifier, vec![(filter, level)]);
    let mut bytes = Vec::new();
    mqtt::Encodable::encode(&packet, &mut bytes).ok()?;
    Some(bytes)
}

/// `mqtt::packet::PingreqPacket::new` and `mqtt::Encodable::encode` into a
/// fresh buffer.
///
/// Claims that the crate writes the two bytes of a PINGREQ frame.
#[verifier::external_body]
pub(crate) fn pingreq_frame() -> (r: Vec<u8>)
    ensures
        r@ == frame(0xc0, Seq::<u8>::empty()),
{
    let mut bytes = Vec::new();
    let _ = mqtt::Encodable::encode(&mqtt::packet::PingreqPacket::new(), &mut bytes);
    bytes
}

/// `mqtt::Decodable::decode` for `mqtt::packet::ConnackPacket`, then
/// `connack_flags` and `connect_return_code`.
///
/// Claims that, of a CONNACK frame with a body of two bytes, the crate
/// refuses a first byte above 1 and otherwise hands out whether that byte
/// is 1 and the second byte as the return code.
#[verifier::external_body]
pub(crate) fn connack_fields(frame: &[u8]) -> (r: Option<(bool, u8)>)
    requires
        is_frame(frame@),
        frame@[0] == 0x20,
        frame_body(frame@).len() == 2,
    ensures
        match parse_connack(frame_body(frame@)) {
            Ok(PacketView::Connack { session_present, return_code }) => r == Some(
                (session_present, return_code),
            ),
            _ => r is None,
        },
{
    let mut reader = frame;
    let packet = <mqtt::packet::ConnackPacket as mqtt::Decodable>::decode(&mut reader).ok()?;
    Some((packet.connack_flags().session_present, packet.connect_return_code().to_u8()))
}

/// `mqtt::Decodable::decode` for `mqtt::packet::SubackPacket`, then
/// `packet_identifier` and `subscribes`.
///
/// Claims that, of a SUBACK frame, the crate reads the packet identifier
/// from the first two bytes of the body and a return code from every byte
/// behind them, and refuses the frame where the body is shorter or a return
/// code is not 0, 1, 2 or 0x80.
#[verifier::external_body]
pub(crate) fn suback_fields(frame: &[u8]) -> (r: Option<(u16, Vec<u8>)>)
    requires
        is_frame(frame@),
        frame@[0] == 0x90,
    ensures
        match parse_suback(frame_body(frame@)) {
            Ok(PacketView::Suback { packet_identifier, return_codes }) => r matches Some(
                (id, codes),
            ) && id == packet_identifier && codes@ == return_codes,
            _ => r is None,
        },
{
    let mut reader = frame;
    let packet = <mqtt::packet::SubackPacket as mqtt::Decodable>::decode(&mut reader).ok()?;
    let return_codes = packet.subscribes().iter().map(|code| *code as u8).collect();
    Some((packet.packet_identifier(), return_codes))
}

/// `mqtt::Decodable::decode` for `mqtt::packet::PublishPacket`, then
/// `topic_name`, `qos` and `payload`.
///
/// Claims that, of a PUBLISH frame whose topic lies within the body, the
/// crate reads the topic, the packet identifier where the flags say at
/// least once or exactly once, and the rest as the payload; that it passes
/// over the duplicate and retain flags; and that it refuses the frame where
/// the flags say level 3, the topic is not UTF-8 or no topic name, or the
/// packet identifier is cut short.
#[verifier::external_body]
pub(crate) fn publish_fields(frame: &[u8]) -> (r: Option<PublishMessage>)
    requires
        is_frame(frame@),
        frame@[0] / 16 == PUBLISH,
        topic_fits(frame_body(frame@)),
    ensures
        match parse_publish((frame@[0] % 16) as int, frame_body(frame@)) {
            Ok(PacketView::Publish(m)) => r is Some && r->0@ == m,
            _ => r is None,
        },
{
    let mut reader = frame;
    let packet = <mqtt::packet::PublishPacket as mqtt::Decodable>::decode(&mut reader).ok()?;
    let (level, packet_identifier) = packet.qos().split();
    let quality_of_service = match level {
        mqtt::QualityOfService::Level0 => QualityOfService::AtMostOnce,
        mqtt::QualityOfService::Level1 => QualityOfService::AtLeastOnce,
        mqtt::QualityOfService::Level2 => QualityOfService::ExactlyOnce,
    };
    let (topic, payload) = (packet.topic_name().to_owned(), packet.payload().to_vec());
    Some(PublishMessage { topic, payload, quality_of_service, packet_identifier })
}

/// `mqtt::TopicFilterRef::new`.
///
/// Claims that the crate accepts a string as a topic filter exactly when it
/// is not empty, has at most 65535 bytes, holds `+` only as a whole level
/// and `#` only as the whole last level.
#[verifier::external_body]
pub(crate) fn is_topic_filter(text: &str) -> (r: bool)
    ensures
        r == valid_topic_filter(text@),
{
    mqtt::TopicFilterRef::new(text).is_ok()
}

/// `std::str::from_utf8`.
///
/// Claims what its documentation says: the bytes are returned as text,
/// unchanged, exactly when they are valid UTF-8.
#[verifier::external_body]
pub(crate) fn utf8_text(bytes: &[u8]) -> (r: Option<&str>)
    ensures
        r is Some <==> valid_utf8(bytes@),
        r is Some ==> encode_utf8(r->0@) == bytes@,
{
    std::str::from_utf8(bytes).ok()
}

} // verus!
