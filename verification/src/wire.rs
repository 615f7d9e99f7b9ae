//! The MQTT 3.1.1 wire format of the seven packet types, as a mathematical
//! model: what the bytes of a packet are, and what packet a byte sequence
//! holds. The executable codec is specified against this model.

use vstd::prelude::*;
use vstd::utf8::{decode_utf8, encode_utf8, valid_utf8};
use crate::packet::{PacketView, ProtocolError, PublishMessageView, QualityOfService};
use crate::packet::TopicSubscriptionView;

verus! {

/// Packet type of CONNECT, as the high nibble of the first byte carries it.
pub const CONNECT: u8 = 1;

/// Packet type of CONNACK.
pub const CONNACK: u8 = 2;

/// Packet type of PUBLISH.
pub const PUBLISH: u8 = 3;

/// Packet type of SUBSCRIBE.
pub const SUBSCRIBE: u8 = 8;

/// Packet type of SUBACK.
pub const SUBACK: u8 = 9;

/// Packet type of PINGREQ.
pub const PINGREQ: u8 = 12;

/// Packet type of PINGRESP.
pub const PINGRESP: u8 = 13;

/// Largest value the remaining-length field can carry (four base-128 digits).
pub const MAX_REMAINING_LENGTH: usize = 268_435_455;

/// Largest number of bytes a length-prefixed string can hold.
pub const MAX_STRING_LENGTH: usize = 65_535;

// ---------------------------------------------------------------------------
// Remaining length
// ---------------------------------------------------------------------------

/// The remaining-length field for `n`: base-128 digits, least significant
/// first, each but the last with its top bit set. Meant for
/// `n <= MAX_REMAINING_LENGTH`.
pub open spec fn remaining_length_bytes(n: nat) -> Seq<u8> {
    if n < 128 {
        seq![n as u8]
    } else if n < 16_384 {
        seq![(128 + n % 128) as u8, (n / 128) as u8]
    } else if n < 2_097_152 {
        seq![(128 + n % 128) as u8, (128 + (n / 128) % 128) as u8, (n / 16_384) as u8]
    } else {
        seq![
            (128 + n % 128) as u8,
            (128 + (n / 128) % 128) as u8,
            (128 + (n / 16_384) % 128) as u8,
            (n / 2_097_152) as u8,
        ]
    }
}

/// What stands where a remaining-length field is expected.
pub ghost enum LengthField {
    /// A field of `width` bytes that carries `value`.
    Value { value: nat, width: nat },
    /// The bytes end before the field does.
    Truncated,
    /// Four bytes with the top bit set: no field ends here.
    Overlong,
}

/// Reads the remaining-length field at the front of `s`.
pub open spec fn length_field(s: Seq<u8>) -> LengthField {
    if s.len() < 1 {
        LengthField::Truncated
    } else if s[0] < 128 {
        LengthField::Value { value: s[0] as nat, width: 1 }
    } else if s.len() < 2 {
        LengthField::Truncated
    } else if s[1] < 128 {
        LengthField::Value { value: ((s[0] - 128) + 128 * s[1]) as nat, width: 2 }
    } else if s.len() < 3 {
        LengthField::Truncated
    } else if s[2] < 128 {
        LengthField::Value {
            value: ((s[0] - 128) + 128 * (s[1] - 128) + 16_384 * s[2]) as nat,
            width: 3,
        }
    } else if s.len() < 4 {
        LengthField::Truncated
    } else if s[3] < 128 {
        LengthField::Value {
            value: ((s[0] - 128) + 128 * (s[1] - 128) + 16_384 * (s[2] - 128) + 2_097_152
                * s[3]) as nat,
            width: 4,
        }
    } else {
        LengthField::Overlong
    }
}

/// Where the first frame of a byte sequence ends.
pub ghost enum Boundary {
    /// A whole frame: `header` bytes of fixed header, `total` bytes in all.
    Whole { header: nat, total: nat },
    /// The sequence is a proper prefix of a frame: more bytes are needed.
    Incomplete,
    /// The remaining-length field never ends: no later byte is known to
    /// start a frame.
    Lost,
}

/// Finds the end of the frame that starts at `s[0]`.
pub open spec fn boundary(s: Seq<u8>) -> Boundary {
    if s.len() == 0 {
        Boundary::Incomplete
    } else {
        match length_field(s.skip(1)) {
            LengthField::Value { value, width } => if s.len() >= 1 + width + value {
                Boundary::Whole { header: 1 + width, total: 1 + width + value }
            } else {
                Boundary::Incomplete
            },
            LengthField::Truncated => Boundary::Incomplete,
            LengthField::Overlong => Boundary::Lost,
        }
    }
}

// ---------------------------------------------------------------------------
// Building blocks
// ---------------------------------------------------------------------------

/// A 16-bit value, most significant byte first.
pub open spec fn be16(v: u16) -> Seq<u8> {
    seq![(v / 256) as u8, (v % 256) as u8]
}

/// The 16-bit value whose bytes are `hi`, `lo`.
pub open spec fn be16_value(hi: u8, lo: u8) -> u16 {
    (hi * 256 + lo) as u16
}

/// Bytes behind their own length as a 16-bit prefix. Meant for at most
/// `MAX_STRING_LENGTH` bytes.
pub open spec fn length_prefixed(bytes: Seq<u8>) -> Seq<u8> {
    be16(bytes.len() as u16) + bytes
}

/// A frame: the first byte (packet type and flags), the remaining length,
/// then the body.
pub open spec fn frame(first: u8, body: Seq<u8>) -> Seq<u8> {
    seq![first] + remaining_length_bytes(body.len()) + body
}

/// Reads a length-prefixed UTF-8 string at the front of `s`: the text and
/// the number of bytes it took.
pub open spec fn parse_string(s: Seq<u8>) -> Option<(Seq<char>, int)> {
    if s.len() < 2 {
        None
    } else {
        let n = be16_value(s[0], s[1]) as int;
        if s.len() < 2 + n {
            None
        } else if !valid_utf8(s.subrange(2, 2 + n)) {
            None
        } else {
            Some((decode_utf8(s.subrange(2, 2 + n)), 2 + n))
        }
    }
}

/// A topic name: not empty, at most `MAX_STRING_LENGTH` bytes, no wildcard.
pub open spec fn valid_topic_name(topic: Seq<char>) -> bool {
    &&& topic.len() > 0
    &&& encode_utf8(topic).len() <= MAX_STRING_LENGTH
    &&& forall|i: int| 0 <= i < topic.len() ==> #[trigger] topic[i] != '#' && topic[i] != '+'
}

/// A topic filter: not empty, at most `MAX_STRING_LENGTH` bytes, `+` only as
/// a whole level, `#` only as the whole last level.
pub open spec fn valid_topic_filter(filter: Seq<char>) -> bool {
    &&& filter.len() > 0
    &&& encode_utf8(filter).len() <= MAX_STRING_LENGTH
    &&& forall|i: int|
        0 <= i < filter.len() && #[trigger] filter[i] == '#' ==> i == filter.len() - 1 && (i == 0
            || filter[i - 1] == '/')
    &&& forall|i: int|
        0 <= i < filter.len() && #[trigger] filter[i] == '+' ==> (i == 0 || filter[i - 1] == '/')
            && (i == filter.len() - 1 || filter[i + 1] == '/')
}

/// A SUBACK return code: the granted level, or 0x80 for a refusal.
pub open spec fn valid_return_code(code: u8) -> bool {
    code <= 2 || code == 128
}

/// The packet types that this codec interprets.
pub open spec fn is_interpreted(packet_type: u8) -> bool {
    packet_type == CONNECT || packet_type == CONNACK || packet_type == PUBLISH || packet_type
        == SUBSCRIBE || packet_type == SUBACK || packet_type == PINGREQ || packet_type == PINGRESP
}

/// The flags that the first byte of a packet of this type has to carry;
/// PUBLISH has none fixed.
pub open spec fn fixed_flags(packet_type: u8) -> u8 {
    if packet_type == SUBSCRIBE {
        2
    } else {
        0
    }
}

/// The quality of service with wire level `level` (0, 1 or 2).
pub open spec fn quality_of_level(level: int) -> QualityOfService {
    if level == 0 {
        QualityOfService::AtMostOnce
    } else if level == 1 {
        QualityOfService::AtLeastOnce
    } else {
        QualityOfService::ExactlyOnce
    }
}

// ---------------------------------------------------------------------------
// Layout of each packet
// ---------------------------------------------------------------------------

/// Start of every CONNECT body: protocol name "MQTT", protocol level 4,
/// connect flags with only the clean-session bit.
pub open spec fn connect_preamble() -> Seq<u8> {
    seq![0u8, 4u8, 0x4du8, 0x51u8, 0x54u8, 0x54u8, 4u8, 2u8]
}

/// The preamble, the keep-alive in seconds, then the client identifier.
pub open spec fn connect_body(client_id: Seq<char>, keep_alive: u16) -> Seq<u8> {
    connect_preamble() + be16(keep_alive) + length_prefixed(encode_utf8(client_id))
}

/// The acknowledge flags, of which only the lowest bit is in use, then the
/// return code.
pub open spec fn connack_body(session_present: bool, return_code: u8) -> Seq<u8> {
    seq![if session_present { 1u8 } else { 0u8 }, return_code]
}

/// Topic name, then the packet identifier if there is one, then the payload
/// with no prefix of its own.
pub open spec fn publish_body(m: PublishMessageView) -> Seq<u8> {
    length_prefixed(encode_utf8(m.topic)) + (match m.packet_identifier {
        Some(id) => be16(id),
        None => Seq::<u8>::empty(),
    }) + m.payload
}

/// The packet identifier, then the one filter and the quality of service
/// requested for it.
pub open spec fn subscribe_body(s: TopicSubscriptionView) -> Seq<u8> {
    be16(s.packet_identifier) + length_prefixed(encode_utf8(s.filter)) + seq![
        s.quality_of_service.level(),
    ]
}

/// The packet identifier, then one return code per filter.
pub open spec fn suback_body(packet_identifier: u16, return_codes: Seq<u8>) -> Seq<u8> {
    be16(packet_identifier) + return_codes
}

/// The values a packet may hold for the wire format to carry it.
pub open spec fn well_formed(p: PacketView) -> bool {
    match p {
        PacketView::Connect { client_id, keep_alive } => encode_utf8(client_id).len()
            <= MAX_STRING_LENGTH,
        PacketView::Connack { session_present, return_code } => true,
        PacketView::Publish(m) => {
            &&& valid_topic_name(m.topic)
            &&& (m.packet_identifier is Some <==> m.quality_of_service
                != QualityOfService::AtMostOnce)
            &&& publish_body(m).len() <= MAX_REMAINING_LENGTH
        },
        PacketView::Subscribe(s) => valid_topic_filter(s.filter),
        PacketView::Suback { packet_identifier, return_codes } => {
            &&& 2 + return_codes.len() <= MAX_REMAINING_LENGTH
            &&& forall|i: int|
                0 <= i < return_codes.len() ==> valid_return_code(#[trigger] return_codes[i])
        },
        PacketView::Pingreq => true,
        PacketView::Pingresp => true,
    }
}

/// Packet type in the high nibble, flags in the low one.
pub open spec fn first_byte(p: PacketView) -> u8 {
    match p {
        PacketView::Connect { .. } => 0x10,
        PacketView::Connack { .. } => 0x20,
        // Duplicate and retain flags clear.
        PacketView::Publish(m) => (0x30 + 2 * m.quality_of_service.level()) as u8,
        PacketView::Subscribe(_) => 0x82,
        PacketView::Suback { .. } => 0x90,
        PacketView::Pingreq => 0xc0,
        PacketView::Pingresp => 0xd0,
    }
}

/// Variable header and payload.
pub open spec fn body(p: PacketView) -> Seq<u8> {
    match p {
        PacketView::Connect { client_id, keep_alive } => connect_body(client_id, keep_alive),
        PacketView::Connack { session_present, return_code } => connack_body(
            session_present,
            return_code,
        ),
        PacketView::Publish(m) => publish_body(m),
        PacketView::Subscribe(s) => subscribe_body(s),
        PacketView::Suback { packet_identifier, return_codes } => suback_body(
            packet_identifier,
            return_codes,
        ),
        PacketView::Pingreq => Seq::<u8>::empty(),
        PacketView::Pingresp => Seq::<u8>::empty(),
    }
}

/// The bytes of a packet on the wire.
pub open spec fn encoding(p: PacketView) -> Seq<u8> {
    frame(first_byte(p), body(p))
}

// ---------------------------------------------------------------------------
// Reading a packet
// ---------------------------------------------------------------------------

/// Reads a CONNECT body: the preamble as it stands, the keep-alive, and a
/// client identifier that takes all the rest.
pub open spec fn parse_connect(body: Seq<u8>) -> Result<PacketView, ProtocolError> {
    if body.len() < 10 || body.subrange(0, 8) != connect_preamble() {
        Err(ProtocolError::Malformed)
    } else {
        match parse_string(body.skip(10)) {
            Some((client_id, used)) => if 10 + used == body.len() {
                Ok(PacketView::Connect { client_id, keep_alive: be16_value(body[8], body[9]) })
            } else {
                Err(ProtocolError::Malformed)
            },
            None => Err(ProtocolError::Malformed),
        }
    }
}

/// Reads a CONNACK body: exactly two bytes, the first of them 0 or 1.
pub open spec fn parse_connack(body: Seq<u8>) -> Result<PacketView, ProtocolError> {
    if body.len() != 2 || body[0] > 1 {
        Err(ProtocolError::Malformed)
    } else {
        Ok(PacketView::Connack { session_present: body[0] == 1, return_code: body[1] })
    }
}

/// Reads a PUBLISH body. `flags` is the low nibble of the first byte:
/// duplicate flag, two bits of quality of service, retain flag. The
/// duplicate and retain flags are not part of the message and are passed
/// over; level 3 does not exist.
pub open spec fn parse_publish(flags: int, body: Seq<u8>) -> Result<PacketView, ProtocolError> {
    let level = (flags / 2) % 4;
    if level == 3 {
        Err(ProtocolError::Malformed)
    } else {
        match parse_string(body) {
            None => Err(ProtocolError::Malformed),
            Some((topic, used)) => if !valid_topic_name(topic) {
                Err(ProtocolError::Malformed)
            } else if level == 0 {
                Ok(
                    PacketView::Publish(
                        PublishMessageView {
                            topic,
                            payload: body.skip(used),
                            quality_of_service: QualityOfService::AtMostOnce,
                            packet_identifier: None,
                        },
                    ),
                )
            } else if body.len() < used + 2 {
                Err(ProtocolError::Malformed)
            } else {
                Ok(
                    PacketView::Publish(
                        PublishMessageView {
                            topic,
                            payload: body.skip(used + 2),
                            quality_of_service: quality_of_level(level),
                            packet_identifier: Some(
                                be16_value(body[used], body[used + 1]),
                            ),
                        },
                    ),
                )
            },
        }
    }
}

/// Reads a SUBSCRIBE body with one filter, as this client sends them: the
/// packet identifier, the filter, and one byte of quality of service that
/// ends the body.
pub open spec fn parse_subscribe(body: Seq<u8>) -> Result<PacketView, ProtocolError> {
    if body.len() < 2 {
        Err(ProtocolError::Malformed)
    } else {
        match parse_string(body.skip(2)) {
            None => Err(ProtocolError::Malformed),
            Some((filter, used)) => if body.len() != 2 + used + 1 || body[2 + used] > 2
                || !valid_topic_filter(filter) {
                Err(ProtocolError::Malformed)
            } else {
                Ok(
                    PacketView::Subscribe(
                        TopicSubscriptionView {
                            filter,
                            quality_of_service: quality_of_level(body[2 + used] as int),
                            packet_identifier: be16_value(body[0], body[1]),
                        },
                    ),
                )
            },
        }
    }
}

/// Reads a SUBACK body: the packet identifier, then return codes to the
/// end.
pub open spec fn parse_suback(body: Seq<u8>) -> Result<PacketView, ProtocolError> {
    if body.len() < 2 || exists|i: int|
        2 <= i < body.len() && !valid_return_code(#[trigger] body[i]) {
        Err(ProtocolError::Malformed)
    } else {
        Ok(
            PacketView::Suback {
                packet_identifier: be16_value(body[0], body[1]),
                return_codes: body.skip(2),
            },
        )
    }
}

/// Interprets a frame's body by the packet type and flags of its first
/// byte. Types 0 and 15 are reserved; the other types outside the seven are
/// left uninterpreted. But for PUBLISH, the flags of a type are fixed.
pub open spec fn parse_body(first: u8, body: Seq<u8>) -> Result<PacketView, ProtocolError> {
    let packet_type = first / 16;
    let flags = first % 16;
    if packet_type == PUBLISH {
        parse_publish(flags as int, body)
    } else if packet_type == 0 || packet_type == 15 {
        Err(ProtocolError::Malformed)
    } else if !is_interpreted(packet_type) {
        Err(ProtocolError::Unsupported)
    } else if flags != fixed_flags(packet_type) {
        Err(ProtocolError::Malformed)
    } else if packet_type == CONNECT {
        parse_connect(body)
    } else if packet_type == CONNACK {
        parse_connack(body)
    } else if packet_type == SUBSCRIBE {
        parse_subscribe(body)
    } else if packet_type == SUBACK {
        parse_suback(body)
    } else if body.len() != 0 {
        Err(ProtocolError::Malformed)
    } else if packet_type == PINGREQ {
        Ok(PacketView::Pingreq)
    } else {
        Ok(PacketView::Pingresp)
    }
}

/// The packet at the front of `s` and the number of bytes it takes. Bytes
/// that hold no whole frame are malformed.
pub open spec fn parse(s: Seq<u8>) -> Result<(PacketView, nat), ProtocolError> {
    match boundary(s) {
        Boundary::Whole { header, total } => match parse_body(
            s[0],
            s.subrange(header as int, total as int),
        ) {
            Ok(p) => Ok((p, total)),
            Err(e) => Err(e),
        },
        Boundary::Incomplete => Err(ProtocolError::Malformed),
        Boundary::Lost => Err(ProtocolError::Malformed),
    }
}

/// A byte sequence that is one whole frame and nothing else.
pub open spec fn is_frame(a: Seq<u8>) -> bool {
    boundary(a) matches Boundary::Whole { header, total } && total == a.len()
}

/// The body of a byte sequence that is one whole frame.
pub open spec fn frame_body(a: Seq<u8>) -> Seq<u8> {
    a.subrange(boundary(a)->header as int, a.len() as int)
}

/// The body of a PUBLISH starts with a topic whose announced length lies
/// within the body.
pub open spec fn topic_fits(body: Seq<u8>) -> bool {
    body.len() >= 2 && body.len() >= 2 + be16_value(body[0], body[1])
}

/// The first frame of a byte sequence, cut out, is a frame by itself, with
/// the same first byte and body.
pub proof fn lemma_first_frame_is_frame(s: Seq<u8>)
    requires
        boundary(s) is Whole,
    ensures
        boundary(s.take(boundary(s)->total as int)) == boundary(s),
        is_frame(s.take(boundary(s)->total as int)),
        s.take(boundary(s)->total as int)[0] == s[0],
        frame_body(s.take(boundary(s)->total as int)) == s.subrange(
            boundary(s)->header as int,
            boundary(s)->total as int,
        ),
{
    let total = boundary(s)->total as int;
    let header = boundary(s)->header as int;
    let a = s.take(total);
    let behind = s.skip(1);
    let cut = a.skip(1);
    assert(forall|i: int| 0 <= i < cut.len() ==> cut[i] == behind[i]);
    assert(a.subrange(header, total) =~= s.subrange(header, total));
}

} // verus!
