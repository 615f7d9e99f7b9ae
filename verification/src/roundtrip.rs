//! Laws of the wire format: what is written is what is read.

use vstd::prelude::*;
use vstd::utf8::{decode_utf8_encode_utf8, encode_utf8, encode_utf8_decode_utf8};
use vstd::utf8::encode_utf8_valid_utf8;
use crate::packet::{PacketView, ProtocolError, PublishMessageView, TopicSubscriptionView};
use crate::wire::{CONNACK, CONNECT, PUBLISH, SUBACK, SUBSCRIBE};
use crate::wire::{be16, be16_value, body, boundary, connack_body, connect_body};
use crate::wire::{connect_preamble, encoding, first_byte, frame, length_field, length_prefixed};
use crate::wire::{parse, parse_body, parse_connect, parse_publish, parse_string, parse_suback};
use crate::wire::{parse_subscribe, publish_body, remaining_length_bytes, suback_body};
use crate::wire::{subscribe_body, valid_return_code, valid_topic_filter, well_formed, Boundary};
use crate::wire::{LengthField, MAX_REMAINING_LENGTH, MAX_STRING_LENGTH};

verus! {

/// A remaining-length field is read back as the value it was written for,
/// whatever follows it.
pub proof fn lemma_length_field_of_bytes(n: nat, tail: Seq<u8>)
    requires
        n <= MAX_REMAINING_LENGTH,
    ensures
        1 <= remaining_length_bytes(n).len() <= 4,
        length_field(remaining_length_bytes(n) + tail) == (LengthField::Value {
            value: n,
            width: remaining_length_bytes(n).len(),
        }),
{
    let field = remaining_length_bytes(n);
    let s = field + tail;
    assert(forall|i: int| 0 <= i < field.len() ==> s[i] == field[i]);
}

/// The first frame of `frame(first, body) + rest` is that frame.
pub proof fn lemma_boundary_of_frame(first: u8, body: Seq<u8>, rest: Seq<u8>)
    requires
        body.len() <= MAX_REMAINING_LENGTH,
    ensures
        boundary(frame(first, body) + rest) == (Boundary::Whole {
            header: 1 + remaining_length_bytes(body.len()).len(),
            total: frame(first, body).len(),
        }),
        frame(first, body).len() == 1 + remaining_length_bytes(body.len()).len() + body.len(),
        (frame(first, body) + rest)[0] == first,
        (frame(first, body) + rest).subrange(
            1 + remaining_length_bytes(body.len()).len() as int,
            frame(first, body).len() as int,
        ) == body,
{
    let field = remaining_length_bytes(body.len());
    let s = frame(first, body) + rest;
    lemma_length_field_of_bytes(body.len(), body + rest);
    assert(s.skip(1) =~= field + (body + rest));
    assert(s.subrange(1 + field.len() as int, frame(first, body).len() as int) =~= body);
}

/// A length-prefixed string is read back as the text it was written for,
/// whatever follows it.
pub proof fn lemma_parse_string_of_text(text: Seq<char>, tail: Seq<u8>)
    requires
        encode_utf8(text).len() <= MAX_STRING_LENGTH,
    ensures
        parse_string(length_prefixed(encode_utf8(text)) + tail) == Some(
            (text, 2 + encode_utf8(text).len() as int),
        ),
        length_prefixed(encode_utf8(text)).len() == 2 + encode_utf8(text).len(),
{
    let bytes = encode_utf8(text);
    let s = length_prefixed(bytes) + tail;
    let n = bytes.len() as int;
    assert(s[0] == (n / 256) as u8 && s[1] == (n % 256) as u8);
    assert(be16_value(s[0], s[1]) == n);
    assert(s.subrange(2, 2 + n) =~= bytes);
    encode_utf8_valid_utf8(text);
    encode_utf8_decode_utf8(text);
}

/// Two bytes written for a 16-bit value are read back as that value.
pub proof fn lemma_be16_value(v: u16)
    ensures
        be16(v).len() == 2,
        be16_value(be16(v)[0], be16(v)[1]) == v,
{
}

proof fn lemma_connect(client_id: Seq<char>, keep_alive: u16)
    requires
        encode_utf8(client_id).len() <= MAX_STRING_LENGTH,
    ensures
        parse_connect(connect_body(client_id, keep_alive)) == Ok::<PacketView, ProtocolError>(
            PacketView::Connect { client_id, keep_alive },
        ),
        connect_body(client_id, keep_alive).len() == 12 + encode_utf8(client_id).len(),
{
    let b = connect_body(client_id, keep_alive);
    lemma_parse_string_of_text(client_id, Seq::<u8>::empty());
    lemma_be16_value(keep_alive);
    assert(b.subrange(0, 8) =~= connect_preamble());
    assert(b.skip(10) =~= length_prefixed(encode_utf8(client_id)) + Seq::<u8>::empty());
    assert(b[8] == be16(keep_alive)[0] && b[9] == be16(keep_alive)[1]);
}

proof fn lemma_publish(m: PublishMessageView)
    requires
        well_formed(PacketView::Publish(m)),
    ensures
        parse_publish(2 * m.quality_of_service.level(), publish_body(m)) == Ok::<
            PacketView,
            ProtocolError,
        >(PacketView::Publish(m)),
{
    let b = publish_body(m);
    let topic_bytes = encode_utf8(m.topic);
    let used = 2 + topic_bytes.len() as int;
    match m.packet_identifier {
        Some(id) => {
            lemma_parse_string_of_text(m.topic, be16(id) + m.payload);
            lemma_be16_value(id);
            assert(b =~= length_prefixed(topic_bytes) + (be16(id) + m.payload));
            assert(b[used] == be16(id)[0] && b[used + 1] == be16(id)[1]);
            assert(b.skip(used + 2) =~= m.payload);
        },
        None => {
            lemma_parse_string_of_text(m.topic, m.payload);
            assert(b =~= length_prefixed(topic_bytes) + m.payload);
            assert(b.skip(used) =~= m.payload);
        },
    }
}

proof fn lemma_subscribe(s: TopicSubscriptionView)
    requires
        valid_topic_filter(s.filter),
    ensures
        parse_subscribe(subscribe_body(s)) == Ok::<PacketView, ProtocolError>(
            PacketView::Subscribe(s),
        ),
        subscribe_body(s).len() == 5 + encode_utf8(s.filter).len(),
{
    let b = subscribe_body(s);
    let tail = seq![s.quality_of_service.level()];
    let used = 2 + encode_utf8(s.filter).len() as int;
    lemma_parse_string_of_text(s.filter, tail);
    lemma_be16_value(s.packet_identifier);
    assert(b.skip(2) =~= length_prefixed(encode_utf8(s.filter)) + tail);
    assert(b[0] == be16(s.packet_identifier)[0] && b[1] == be16(s.packet_identifier)[1]);
    assert(b[2 + used] == s.quality_of_service.level());
}

proof fn lemma_suback(packet_identifier: u16, return_codes: Seq<u8>)
    requires
        forall|i: int|
            0 <= i < return_codes.len() ==> valid_return_code(#[trigger] return_codes[i]),
    ensures
        parse_suback(suback_body(packet_identifier, return_codes)) == Ok::<
            PacketView,
            ProtocolError,
        >(PacketView::Suback { packet_identifier, return_codes }),
{
    let b = suback_body(packet_identifier, return_codes);
    lemma_be16_value(packet_identifier);
    assert(b.skip(2) =~= return_codes);
    assert(b[0] == be16(packet_identifier)[0] && b[1] == be16(packet_identifier)[1]);
    assert forall|i: int| 2 <= i < b.len() implies valid_return_code(#[trigger] b[i]) by {
        assert(b[i] == return_codes[i - 2]);
    }
}

/// The body of a well-formed packet, read by the packet's own first byte,
/// is the packet; and it fits the remaining-length field.
pub proof fn lemma_parse_body_of_packet(p: PacketView)
    requires
        well_formed(p),
    ensures
        parse_body(first_byte(p), body(p)) == Ok::<PacketView, ProtocolError>(p),
        body(p).len() <= MAX_REMAINING_LENGTH,
{
    match p {
        PacketView::Connect { client_id, keep_alive } => {
            lemma_connect(client_id, keep_alive);
        },
        PacketView::Connack { session_present, return_code } => {},
        PacketView::Publish(m) => {
            lemma_publish(m);
        },
        PacketView::Subscribe(s) => {
            lemma_subscribe(s);
        },
        PacketView::Suback { packet_identifier, return_codes } => {
            lemma_suback(packet_identifier, return_codes);
        },
        PacketView::Pingreq => {},
        PacketView::Pingresp => {},
    }
}

/// Round trip: the encoding of a well-formed packet, whatever bytes follow
/// it, is read back as that packet and as exactly the bytes of the encoding.
pub proof fn lemma_parse_of_encoding(p: PacketView, rest: Seq<u8>)
    requires
        well_formed(p),
    ensures
        parse(encoding(p) + rest) == Ok::<(PacketView, nat), ProtocolError>(
            (p, encoding(p).len()),
        ),
{
    lemma_parse_body_of_packet(p);
    lemma_boundary_of_frame(first_byte(p), body(p), rest);
}

/// Round trip on a buffer that holds the encoding and nothing else.
pub proof fn lemma_roundtrip(p: PacketView)
    requires
        well_formed(p),
    ensures
        parse(encoding(p)) == Ok::<(PacketView, nat), ProtocolError>((p, encoding(p).len())),
{
    lemma_parse_of_encoding(p, Seq::<u8>::empty());
    assert(encoding(p) + Seq::<u8>::empty() =~= encoding(p));
}

/// A string that was read is the string whose bytes stood there.
proof fn lemma_string_that_was_read(s: Seq<u8>, text: Seq<char>, used: int)
    requires
        parse_string(s) == Some((text, used)),
    ensures
        2 <= used <= s.len(),
        used <= 2 + MAX_STRING_LENGTH,
        length_prefixed(encode_utf8(text)) == s.take(used),
        encode_utf8(text).len() + 2 == used,
{
    let n = be16_value(s[0], s[1]) as int;
    let bytes = s.subrange(2, 2 + n);
    decode_utf8_encode_utf8(bytes);
    assert(be16(n as u16) =~= seq![s[0], s[1]]);
    assert(length_prefixed(bytes) =~= s.take(2 + n));
}

/// Nothing is lost in reading: a body that was read as a packet is the body
/// of that packet, and the packet is well formed.
pub proof fn lemma_body_of_parsed_packet(first: u8, b: Seq<u8>, p: PacketView)
    requires
        parse_body(first, b) == Ok::<PacketView, ProtocolError>(p),
        b.len() <= MAX_REMAINING_LENGTH,
    ensures
        well_formed(p),
        body(p) == b,
        first_byte(p) / 16 == first / 16,
{
    let packet_type = first / 16;
    if packet_type == CONNECT {
        let (text, used) = parse_string(b.skip(10))->0;
        lemma_string_that_was_read(b.skip(10), text, used);
        assert(b.skip(10).take(b.len() - 10) =~= b.skip(10));
        assert(b.subrange(0, 8) + be16(be16_value(b[8], b[9])) + b.skip(10) =~= b);
    } else if packet_type == PUBLISH {
        let (text, used) = parse_string(b)->0;
        lemma_string_that_was_read(b, text, used);
        let level = ((first % 16) as int / 2) % 4;
        if level == 0 {
            assert(b.take(used) + Seq::<u8>::empty() + b.skip(used) =~= b);
        } else {
            assert(be16(be16_value(b[used], b[used + 1])) =~= seq![b[used], b[used + 1]]);
            assert(b.take(used) + seq![b[used], b[used + 1]] + b.skip(used + 2) =~= b);
        }
    } else if packet_type == SUBSCRIBE {
        let (text, used) = parse_string(b.skip(2))->0;
        lemma_string_that_was_read(b.skip(2), text, used);
        assert(be16(be16_value(b[0], b[1])) =~= seq![b[0], b[1]]);
        assert(b.skip(2).take(used) =~= b.subrange(2, 2 + used));
        assert(seq![b[0], b[1]] + b.subrange(2, 2 + used) + seq![b[2 + used]] =~= b);
    } else if packet_type == SUBACK {
        assert(be16(be16_value(b[0], b[1])) =~= seq![b[0], b[1]]);
        assert(seq![b[0], b[1]] + b.skip(2) =~= b);
        assert forall|i: int| 0 <= i < b.skip(2).len() implies valid_return_code(
            #[trigger] b.skip(2)[i],
        ) by {
            assert(b.skip(2)[i] == b[i + 2]);
        }
    } else if packet_type == CONNACK {
        assert(connack_body(b[0] == 1, b[1]) =~= b);
    } else {
        assert(b =~= Seq::<u8>::empty());
    }
}

/// What `parse` finds is a well-formed packet in a prefix of the bytes.
pub proof fn lemma_parsed_is_well_formed(s: Seq<u8>, p: PacketView, total: nat)
    requires
        parse(s) == Ok::<(PacketView, nat), ProtocolError>((p, total)),
    ensures
        well_formed(p),
        2 <= total <= s.len(),
{
    let header = boundary(s)->header as int;
    lemma_body_of_parsed_packet(s[0], s.subrange(header, total as int), p);
}

} // verus!
