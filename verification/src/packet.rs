//! The control packets this client exchanges with a broker, as plain data.

use vstd::prelude::*;

verus! {

/// Delivery guarantee requested for a message or a subscription.
#[derive(Clone, Copy, Debug, PartialEq, Eq, Structural)]
pub enum QualityOfService {
    AtMostOnce,
    AtLeastOnce,
    ExactlyOnce,
}

impl QualityOfService {
    /// The level as the wire carries it: 0, 1 or 2.
    pub open spec fn level(self) -> u8 {
        match self {
            QualityOfService::AtMostOnce => 0,
            QualityOfService::AtLeastOnce => 1,
            QualityOfService::ExactlyOnce => 2,
        }
    }

    /// The level as the wire carries it.
    pub fn to_level(self) -> (r: u8)
        ensures
            r == self.level(),
    {
        match self {
            QualityOfService::AtMostOnce => 0,
            QualityOfService::AtLeastOnce => 1,
            QualityOfService::ExactlyOnce => 2,
        }
    }

    /// The quality of service with the given wire level, if there is one.
    pub fn from_level(level: u8) -> (r: Option<QualityOfService>)
        ensures
            level <= 2 ==> r is Some && r->0.level() == level,
            level > 2 ==> r is None,
    {
        if level == 0 {
            Some(QualityOfService::AtMostOnce)
        } else if level == 1 {
            Some(QualityOfService::AtLeastOnce)
        } else if level == 2 {
            Some(QualityOfService::ExactlyOnce)
        } else {
            None
        }
    }
}

/// Why a byte sequence could not be turned into a packet.
#[derive(Clone, Copy, Debug, PartialEq, Eq, Structural)]
pub enum ProtocolError {
    /// The fixed header, the remaining length or the packet's own layout is
    /// inconsistent with the bytes at hand.
    Malformed,
    /// A whole frame of a packet type that this codec does not interpret.
    Unsupported,
}

/// One application message on its way to or from the broker.
///
/// `packet_identifier` is present exactly when the quality of service is at
/// least once.
#[derive(Clone, Debug, PartialEq, Eq)]
pub struct PublishMessage {
    pub topic: String,
    pub payload: Vec<u8>,
    pub quality_of_service: QualityOfService,
    pub packet_identifier: Option<u16>,
}

/// Mathematical value of a [`PublishMessage`].
pub ghost struct PublishMessageView {
    pub topic: Seq<char>,
    pub payload: Seq<u8>,
    pub quality_of_service: QualityOfService,
    pub packet_identifier: Option<u16>,
}

impl View for PublishMessage {
    type V = PublishMessageView;

    open spec fn view(&self) -> PublishMessageView {
        PublishMessageView {
            topic: self.topic@,
            payload: self.payload@,
            quality_of_service: self.quality_of_service,
            packet_identifier: self.packet_identifier,
        }
    }
}

/// A request to receive the messages whose topic matches `filter`.
#[derive(Clone, Debug, PartialEq, Eq)]
pub struct TopicSubscription {
    pub filter: String,
    pub quality_of_service: QualityOfService,
    pub packet_identifier: u16,
}

/// Mathematical value of a [`TopicSubscription`].
pub ghost struct TopicSubscriptionView {
    pub filter: Seq<char>,
    pub quality_of_service: QualityOfService,
    pub packet_identifier: u16,
}

impl View for TopicSubscription {
    type V = TopicSubscriptionView;

    open spec fn view(&self) -> TopicSubscriptionView {
        TopicSubscriptionView {
            filter: self.filter@,
            quality_of_service: self.quality_of_service,
            packet_identifier: self.packet_identifier,
        }
    }
}

/// A control packet of one of the seven types the session uses.
#[derive(Clone, Debug, PartialEq, Eq)]
pub enum Packet {
    /// Opens a clean session under `client_id`.
    Connect { client_id: String, keep_alive: u16 },
    /// The broker's answer to `Connect`; `return_code` 0 means accepted.
    Connack { session_present: bool, return_code: u8 },
    Publish(PublishMessage),
    Subscribe(TopicSubscription),
    /// The broker's answer to `Subscribe`, one return code per filter.
    Suback { packet_identifier: u16, return_codes: Vec<u8> },
    Pingreq,
    Pingresp,
}

/// Mathematical value of a [`Packet`].
pub ghost enum PacketView {
    Connect { client_id: Seq<char>, keep_alive: u16 },
    Connack { session_present: bool, return_code: u8 },
    Publish(PublishMessageView),
    Subscribe(TopicSubscriptionView),
    Suback { packet_identifier: u16, return_codes: Seq<u8> },
    Pingreq,
    Pingresp,
}

impl View for Packet {
    type V = PacketView;

    open spec fn view(&self) -> PacketView {
        match self {
            Packet::Connect { client_id, keep_alive } => PacketView::Connect {
                client_id: client_id@,
                keep_alive: *keep_alive,
            },
            Packet::Connack { session_present, return_code } => PacketView::Connack {
                session_present: *session_present,
                return_code: *return_code,
            },
            Packet::Publish(message) => PacketView::Publish(message@),
            Packet::Subscribe(subscription) => PacketView::Subscribe(subscription@),
            Packet::Suback { packet_identifier, return_codes } => PacketView::Suback {
                packet_identifier: *packet_identifier,
                return_codes: return_codes@,
            },
            Packet::Pingreq => PacketView::Pingreq,
            Packet::Pingresp => PacketView::Pingresp,
        }
    }
}

} // verus!
