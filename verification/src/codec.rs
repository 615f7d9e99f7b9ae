//! The packet codec: packets to bytes and bytes to packets.
//!
//! Where a frame ends is found here, from its fixed header. What a client
//! sends (CONNECT, SUBSCRIBE, PUBLISH, PINGREQ) is written by the `mqtt`
//! crate, and what a broker sends (CONNACK, SUBACK, PUBLISH) is read by it;
//! every such call is held to the wire model of this crate. The other
//! direction of each packet, which only a broker or its stand-in needs, is
//! written and read here.

use vstd::prelude::*;
use vstd::slice::slice_subrange;
use vstd::utf8::encode_utf8_decode_utf8;
use crate::mqtt_crate::{connack_fields, connect_frame, is_topic_filter, pingreq_frame};
use crate::mqtt_crate::{publish_fields, publish_frame, suback_fields, subscribe_frame, utf8_text};
use crate::packet::{Packet, PacketView, ProtocolError, PublishMessage, QualityOfService};
use crate::packet::TopicSubscription;
use crate::wire::{be16, be16_value, boundary, connack_body, connect_preamble, encoding, frame};
use crate::wire::{frame_body, lemma_first_frame_is_frame, parse, parse_body, parse_connack};
use crate::wire::{parse_connect, parse_publish, parse_string, parse_subscribe, parse_suback};
use crate::wire::{remaining_length_bytes, valid_return_code, well_formed, Boundary};
use crate::wire::{CONNACK, CONNECT, MAX_REMAINING_LENGTH, MAX_STRING_LENGTH, PINGREQ, PINGRESP};
use crate::wire::{PUBLISH, SUBACK, SUBSCRIBE};

verus! {

/// What a receive buffer holds at its front.
#[derive(Clone, Copy, Debug, PartialEq, Eq, Structural)]
pub enum FrameProbe {
    /// A whole frame: `header` bytes of fixed header, `total` bytes in all.
    Whole { header: usize, total: usize },
    /// Part of a frame: more bytes have to arrive.
    NeedMore,
    /// A remaining-length field that never ends: the stream cannot be
    /// followed any further.
    Lost,
}

impl View for FrameProbe {
    type V = Boundary;

    open spec fn view(&self) -> Boundary {
        match self {
            FrameProbe::Whole { header, total } => Boundary::Whole {
                header: *header as nat,
                total: *total as nat,
            },
            FrameProbe::NeedMore => Boundary::Incomplete,
            FrameProbe::Lost => Boundary::Lost,
        }
    }
}

/// A decoding outcome `r` says what the model `m` says.
pub open spec fn decoded_as(
    r: Result<Packet, ProtocolError>,
    m: Result<PacketView, ProtocolError>,
) -> bool {
    match m {
        Ok(v) => r is Ok && r->Ok_0@ == v,
        Err(e) => r is Err && r->Err_0 == e,
    }
}

/// A frame of `header + value` bytes in a buffer of `len`: whole, or still
/// to be completed.
fn whole_or_more(len: usize, header: usize, value: usize) -> (r: FrameProbe)
    requires
        2 <= header <= 5,
        header <= len,
        value <= MAX_REMAINING_LENGTH,
    ensures
        r == if len >= header + value {
            FrameProbe::Whole { header, total: (header + value) as usize }
        } else {
            FrameProbe::NeedMore
        },
{
    if len - header >= value {
        FrameProbe::Whole { header, total: header + value }
    } else {
        FrameProbe::NeedMore
    }
}

/// Finds where the frame at the front of `buf` ends, from its fixed header
/// alone.
pub fn probe(buf: &[u8]) -> (r: FrameProbe)
    ensures
        r@ == boundary(buf@),
        r matches FrameProbe::Whole { header, total } ==> 2 <= header <= 5 && header <= total
            <= buf@.len() && total - header <= MAX_REMAINING_LENGTH,
{
    let len: usize = buf.len();
    if len < 2 {
        FrameProbe::NeedMore
    } else if buf[1] < 128 {
        whole_or_more(len, 2, buf[1] as usize)
    } else if len < 3 {
        FrameProbe::NeedMore
    } else if buf[2] < 128 {
        whole_or_more(len, 3, (buf[1] - 128) as usize + 128 * (buf[2] as usize))
    } else if len < 4 {
        FrameProbe::NeedMore
    } else if buf[3] < 128 {
        whole_or_more(
            len,
            4,
            (buf[1] - 128) as usize + 128 * ((buf[2] - 128) as usize) + 16_384 * (buf[3] as usize),
        )
    } else if len < 5 {
        FrameProbe::NeedMore
    } else if buf[4] < 128 {
        whole_or_more(
            len,
            5,
            (buf[1] - 128) as usize + 128 * ((buf[2] - 128) as usize) + 16_384 * ((buf[3]
                - 128) as usize) + 2_097_152 * (buf[4] as usize),
        )
    } else {
        FrameProbe::Lost
    }
}

/// The 16-bit value whose bytes are `hi`, `lo`.
fn read_be16(hi: u8, lo: u8) -> (r: u16)
    ensures
        r == be16_value(hi, lo),
{
    (hi as u16) * 256 + (lo as u16)
}

/// Reads the length-prefixed UTF-8 string that starts at `buf[at]`: the text
/// and the number of bytes it took.
fn read_string(buf: &[u8], at: usize) -> (r: Option<(String, usize)>)
    requires
        at <= buf@.len(),
    ensures
        match parse_string(buf@.skip(at as int)) {
            Some((text, used)) => r matches Some((s, n)) && s@ == text && n == used && at + used
                <= buf@.len(),
            None => r is None,
        },
{
    let len: usize = buf.len();
    if len - at < 2 {
        return None;
    }
    let n: usize = read_be16(buf[at], buf[at + 1]) as usize;
    if len - at - 2 < n {
        return None;
    }
    let bytes = slice_subrange(buf, at + 2, at + 2 + n);
    assert(bytes@ == buf@.skip(at as int).subrange(2, 2 + n));
    match utf8_text(bytes) {
        None => None,
        Some(text) => {
            proof {
                encode_utf8_decode_utf8(text@);
            }
            Some((text.to_owned(), 2 + n))
        },
    }
}

/// Reads the body of a CONNECT.
fn decode_connect(body: &[u8]) -> (r: Result<Packet, ProtocolError>)
    ensures
        decoded_as(r, parse_connect(body@)),
{
    if body.len() < 10 {
        return Err(ProtocolError::Malformed);
    }
    let preamble_ok = body[0] == 0 && body[1] == 4 && body[2] == 0x4d && body[3] == 0x51
        && body[4] == 0x54 && body[5] == 0x54 && body[6] == 4 && body[7] == 2;
    proof {
        let head = body@.subrange(0, 8);
        if preamble_ok {
            assert(head =~= connect_preamble());
        } else {
            assert(head[0] == body@[0] && head[1] == body@[1] && head[2] == body@[2] && head[3]
                == body@[3] && head[4] == body@[4] && head[5] == body@[5] && head[6] == body@[6]
                && head[7] == body@[7]);
        }
    }
    if !preamble_ok {
        return Err(ProtocolError::Malformed);
    }
    let keep_alive = read_be16(body[8], body[9]);
    match read_string(body, 10) {
        None => Err(ProtocolError::Malformed),
        Some((client_id, used)) => {
            if 10 + used == body.len() {
                Ok(Packet::Connect { client_id, keep_alive })
            } else {
                Err(ProtocolError::Malformed)
            }
        },
    }
}

/// Reads a CONNACK: checks the length of the body and leaves the rest to
/// the `mqtt` crate.
fn decode_connack(frame: &[u8], header: usize) -> (r: Result<Packet, ProtocolError>)
    requires
        boundary(frame@) == (Boundary::Whole { header: header as nat, total: frame@.len() }),
        frame@[0] == 0x20,
    ensures
        decoded_as(r, parse_connack(frame_body(frame@))),
{
    if frame.len() - header != 2 {
        return Err(ProtocolError::Malformed);
    }
    match connack_fields(frame) {
        Some((session_present, return_code)) => Ok(
            Packet::Connack { session_present, return_code },
        ),
        None => Err(ProtocolError::Malformed),
    }
}

/// Reads a PUBLISH: checks that the topic lies within the body and leaves
/// the rest to the `mqtt` crate.
fn decode_publish(frame: &[u8], header: usize) -> (r: Result<Packet, ProtocolError>)
    requires
        boundary(frame@) == (Boundary::Whole { header: header as nat, total: frame@.len() }),
        frame@[0] / 16 == PUBLISH,
    ensures
        decoded_as(r, parse_publish((frame@[0] % 16) as int, frame_body(frame@))),
{
    let len: usize = frame.len();
    if len - header < 2 || len - header - 2 < read_be16(frame[header], frame[header + 1]) as usize {
        return Err(ProtocolError::Malformed);
    }
    match publish_fields(frame) {
        Some(message) => Ok(Packet::Publish(message)),
        None => Err(ProtocolError::Malformed),
    }
}

/// Reads the body of a SUBSCRIBE with one filter.
fn decode_subscribe(body: &[u8]) -> (r: Result<Packet, ProtocolError>)
    ensures
        decoded_as(r, parse_subscribe(body@)),
{
    if body.len() < 2 {
        return Err(ProtocolError::Malformed);
    }
    let packet_identifier = read_be16(body[0], body[1]);
    match read_string(body, 2) {
        None => Err(ProtocolError::Malformed),
        Some((filter, used)) => {
            if body.len() - 2 - used != 1 {
                return Err(ProtocolError::Malformed);
            }
            match QualityOfService::from_level(body[2 + used]) {
                None => Err(ProtocolError::Malformed),
                Some(quality_of_service) => {
                    if is_topic_filter(filter.as_str()) {
                        Ok(
                            Packet::Subscribe(
                                TopicSubscription { filter, quality_of_service, packet_identifier },
                            ),
                        )
                    } else {
                        Err(ProtocolError::Malformed)
                    }
                },
            }
        },
    }
}

/// Reads a SUBACK through the `mqtt` crate.
fn decode_suback(frame: &[u8], header: usize) -> (r: Result<Packet, ProtocolError>)
    requires
        boundary(frame@) == (Boundary::Whole { header: header as nat, total: frame@.len() }),
        frame@[0] == 0x90,
    ensures
        decoded_as(r, parse_suback(frame_body(frame@))),
{
    match suback_fields(frame) {
        Some((packet_identifier, return_codes)) => Ok(
            Packet::Suback { packet_identifier, return_codes },
        ),
        None => Err(ProtocolError::Malformed),
    }
}

/// Interprets one whole frame by the packet type and flags of its first
/// byte. What arrives from a broker (CONNACK, SUBACK, PUBLISH) is read by
/// the `mqtt` crate once its frame is known to be whole; the packets that
/// only a client sends are read here.
pub(crate) fn decode_frame(frame: &[u8], header: usize) -> (r: Result<Packet, ProtocolError>)
    requires
        boundary(frame@) == (Boundary::Whole { header: header as nat, total: frame@.len() }),
    ensures
        decoded_as(r, parse_body(frame@[0], frame_body(frame@))),
{
    let first: u8 = frame[0];
    let packet_type: u8 = first / 16;
    let flags: u8 = first % 16;
    let body = slice_subrange(frame, header, frame.len());
    if packet_type == PUBLISH {
        decode_publish(frame, header)
    } else if packet_type == 0 || packet_type == 15 {
        Err(ProtocolError::Malformed)
    } else if !(packet_type == CONNECT || packet_type == CONNACK || packet_type == SUBSCRIBE
        || packet_type == SUBACK || packet_type == PINGREQ || packet_type == PINGRESP) {
        Err(ProtocolError::Unsupported)
    } else if flags != (if packet_type == SUBSCRIBE { 2 } else { 0 }) {
        Err(ProtocolError::Malformed)
    } else if packet_type == CONNECT {
        decode_connect(body)
    } else if packet_type == CONNACK {
        decode_connack(frame, header)
    } else if packet_type == SUBSCRIBE {
        decode_subscribe(body)
    } else if packet_type == SUBACK {
        decode_suback(frame, header)
    } else if body.len() != 0 {
        Err(ProtocolError::Malformed)
    } else if packet_type == PINGREQ {
        Ok(Packet::Pingreq)
    } else {
        Ok(Packet::Pingresp)
    }
}

/// Decodes the packet at the front of `buf` and says how many bytes it
/// took.
///
/// Fails with `Malformed` when `buf` holds no whole frame or the frame's
/// body does not have the layout of its packet type, and with `Unsupported`
/// when the frame is whole and of a type outside the seven.
pub fn decode(buf: &[u8]) -> (r: Result<(Packet, usize), ProtocolError>)
    ensures
        match parse(buf@) {
            Ok((packet, total)) => r matches Ok((p, n)) && p@ == packet && n == total,
            Err(e) => r is Err && r->Err_0 == e,
        },
        r matches Ok((p, n)) ==> 2 <= n <= buf@.len(),
{
    match probe(buf) {
        FrameProbe::Whole { header, total } => {
            proof {
                lemma_first_frame_is_frame(buf@);
            }
            match decode_frame(slice_subrange(buf, 0, total), header) {
                Ok(packet) => Ok((packet, total)),
                Err(e) => Err(e),
            }
        },
        FrameProbe::NeedMore => Err(ProtocolError::Malformed),
        FrameProbe::Lost => Err(ProtocolError::Malformed),
    }
}

/// The remaining-length field for `n`.
fn remaining_length(n: usize) -> (r: Vec<u8>)
    requires
        n <= MAX_REMAINING_LENGTH,
    ensures
        r@ == remaining_length_bytes(n as nat),
{
    let mut out: Vec<u8> = Vec::new();
    if n < 128 {
        out.push(n as u8);
    } else if n < 16_384 {
        out.push((128 + n % 128) as u8);
        out.push((n / 128) as u8);
    } else if n < 2_097_152 {
        out.push((128 + n % 128) as u8);
        out.push((128 + (n / 128) % 128) as u8);
        out.push((n / 16_384) as u8);
    } else {
        out.push((128 + n % 128) as u8);
        out.push((128 + (n / 128) % 128) as u8);
        out.push((128 + (n / 16_384) % 128) as u8);
        out.push((n / 2_097_152) as u8);
    }
    assert(out@ =~= remaining_length_bytes(n as nat));
    out
}

/// Puts `first` and the remaining length in front of `body`.
fn assemble(first: u8, body: Vec<u8>) -> (r: Vec<u8>)
    requires
        body@.len() <= MAX_REMAINING_LENGTH,
    ensures
        r@ == frame(first, body@),
{
    let mut body = body;
    let mut out: Vec<u8> = Vec::new();
    out.push(first);
    let mut field = remaining_length(body.len());
    out.append(&mut field);
    out.append(&mut body);
    out
}

/// Writes a PUBLISH through the `mqtt` crate, once the message is known to
/// fit a frame.
pub(crate) fn encode_publish(message: &PublishMessage) -> (r: Result<Vec<u8>, ProtocolError>)
    ensures
        well_formed(PacketView::Publish(message@)) ==> r is Ok && r->Ok_0@ == encoding(
            PacketView::Publish(message@),
        ),
        !well_formed(PacketView::Publish(message@)) ==> r is Err && r->Err_0
            == ProtocolError::Malformed,
{
    let topic_len: usize = message.topic.as_str().as_bytes().len();
    let needs_id = message.quality_of_service.to_level() != 0;
    if message.packet_identifier.is_some() != needs_id || topic_len > MAX_STRING_LENGTH
        || message.payload.len() > MAX_REMAINING_LENGTH {
        return Err(ProtocolError::Malformed);
    }
    let overhead: usize = 2 + topic_len + (if needs_id { 2 } else { 0 });
    if message.payload.len() > MAX_REMAINING_LENGTH - overhead {
        return Err(ProtocolError::Malformed);
    }
    let id: u16 = match message.packet_identifier {
        Some(id) => id,
        None => 0,
    };
    match publish_frame(
        message.topic.as_str(),
        message.quality_of_service,
        id,
        message.payload.as_slice(),
    ) {
        Some(bytes) => Ok(bytes),
        None => Err(ProtocolError::Malformed),
    }
}

/// Writes a SUBSCRIBE through the `mqtt` crate.
pub(crate) fn encode_subscribe(subscription: &TopicSubscription) -> (r: Result<
    Vec<u8>,
    ProtocolError,
>)
    ensures
        well_formed(PacketView::Subscribe(subscription@)) ==> r is Ok && r->Ok_0@ == encoding(
            PacketView::Subscribe(subscription@),
        ),
        !well_formed(PacketView::Subscribe(subscription@)) ==> r is Err && r->Err_0
            == ProtocolError::Malformed,
{
    match subscribe_frame(
        subscription.filter.as_str(),
        subscription.quality_of_service,
        subscription.packet_identifier,
    ) {
        Some(bytes) => Ok(bytes),
        None => Err(ProtocolError::Malformed),
    }
}

/// Writes a SUBACK.
fn encode_suback(packet_identifier: u16, return_codes: &Vec<u8>) -> (r: Result<
    Vec<u8>,
    ProtocolError,
>)
    ensures
        well_formed(PacketView::Suback { packet_identifier, return_codes: return_codes@ }) ==> r
            is Ok && r->Ok_0@ == encoding(
            PacketView::Suback { packet_identifier, return_codes: return_codes@ },
        ),
        !well_formed(PacketView::Suback { packet_identifier, return_codes: return_codes@ }) ==> r
            is Err && r->Err_0 == ProtocolError::Malformed,
{
    let len: usize = return_codes.len();
    if len > MAX_REMAINING_LENGTH - 2 {
        return Err(ProtocolError::Malformed);
    }
    let mut body: Vec<u8> = Vec::new();
    body.push((packet_identifier / 256) as u8);
    body.push((packet_identifier % 256) as u8);
    let mut i: usize = 0;
    while i < len
        invariant
            i <= len,
            len == return_codes@.len(),
            body@ == be16(packet_identifier) + return_codes@.take(i as int),
            forall|j: int| 0 <= j < i ==> valid_return_code(#[trigger] return_codes@[j]),
        decreases len - i,
    {
        let code: u8 = return_codes[i];
        if code > 2 && code != 128 {
            return Err(ProtocolError::Malformed);
        }
        body.push(code);
        assert(return_codes@.take(i + 1) == return_codes@.take(i as int).push(code));
        i = i + 1;
    }
    assert(return_codes@.take(len as int) == return_codes@);
    Ok(assemble(0x90, body))
}

/// Encodes a packet as one frame.
///
/// Fails with `Malformed` exactly on the packets that the wire format
/// cannot carry: a string over 65535 bytes, a topic that is no topic name, a
/// filter that is no topic filter, a packet identifier without or a quality
/// of service above at most once without one, a return code that is none,
/// or a body over the remaining-length limit.
pub fn encode(packet: &Packet) -> (r: Result<Vec<u8>, ProtocolError>)
    ensures
        well_formed(packet@) ==> r is Ok && r->Ok_0@ == encoding(packet@),
        !well_formed(packet@) ==> r is Err && r->Err_0 == ProtocolError::Malformed,
{
    match packet {
        Packet::Connect { client_id, keep_alive } => {
            if client_id.as_str().as_bytes().len() > MAX_STRING_LENGTH {
                Err(ProtocolError::Malformed)
            } else {
                Ok(connect_frame(client_id.as_str(), *keep_alive))
            }
        },
        Packet::Connack { session_present, return_code } => {
            let mut body: Vec<u8> = Vec::new();
            body.push(if *session_present { 1 } else { 0 });
            body.push(*return_code);
            assert(body@ =~= connack_body(*session_present, *return_code));
            Ok(assemble(0x20, body))
        },
        Packet::Publish(message) => encode_publish(message),
        Packet::Subscribe(subscription) => encode_subscribe(subscription),
        Packet::Suback { packet_identifier, return_codes } => encode_suback(
            *packet_identifier,
            return_codes,
        ),
        Packet::Pingreq => Ok(pingreq_frame()),
        Packet::Pingresp => Ok(assemble(0xd0, Vec::new())),
    }
}

} // verus!
