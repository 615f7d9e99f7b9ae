//! The inbound dispatcher: turns the bytes that arrive on a ready session
//! into what they mean, frame by frame, and survives a damaged frame.

use vstd::prelude::*;
use vstd::slice::{slice_subrange, slice_to_vec};
use vstd::string::{StrSliceExecFns, StringExecFns};
use vstd::utf8::{decode_utf8, encode_utf8_decode_utf8, valid_utf8};
use crate::codec::{decode_frame, probe, FrameProbe};
use crate::mqtt_crate::utf8_text;
use crate::packet::{Packet, PacketView, ProtocolError, PublishMessage, PublishMessageView};
use crate::wire::{boundary, frame_body, lemma_first_frame_is_frame, parse_body, Boundary};

verus! {

/// What one frame of the inbound stream means to the session.
#[derive(Clone, Debug, PartialEq, Eq)]
pub enum Inbound {
    /// A PUBLISH: an application message to deliver.
    Message(PublishMessage),
    /// A PINGRESP: the broker is alive.
    BrokerAlive,
    /// A whole frame of any other packet type; nothing to do.
    Ignored,
    /// A whole frame whose content is malformed. It is to be reported;
    /// reading goes on behind it.
    Malformed,
}

/// Mathematical value of an [`Inbound`].
pub ghost enum InboundView {
    Message(PublishMessageView),
    BrokerAlive,
    Ignored,
    Malformed,
}

impl View for Inbound {
    type V = InboundView;

    open spec fn view(&self) -> InboundView {
        match self {
            Inbound::Message(m) => InboundView::Message(m@),
            Inbound::BrokerAlive => InboundView::BrokerAlive,
            Inbound::Ignored => InboundView::Ignored,
            Inbound::Malformed => InboundView::Malformed,
        }
    }
}

/// The values of a sequence of inbound items.
pub open spec fn views(items: Seq<Inbound>) -> Seq<InboundView> {
    items.map_values(|item: Inbound| item@)
}

/// What a frame with this first byte and body means.
pub open spec fn classify(first: u8, body: Seq<u8>) -> InboundView {
    match parse_body(first, body) {
        Ok(PacketView::Publish(m)) => InboundView::Message(m),
        Ok(PacketView::Pingresp) => InboundView::BrokerAlive,
        Ok(_) => InboundView::Ignored,
        Err(ProtocolError::Unsupported) => InboundView::Ignored,
        Err(ProtocolError::Malformed) => InboundView::Malformed,
    }
}

/// The outcome of reading a byte sequence frame by frame.
pub ghost struct Scan {
    /// What the whole frames mean, in order.
    pub found: Seq<InboundView>,
    /// The bytes behind the last whole frame.
    pub rest: Seq<u8>,
    /// The rest starts with a remaining-length field that never ends: no
    /// frame boundary can be found any more.
    pub lost: bool,
}

/// Reads `s` frame by frame until no whole frame is left.
pub open spec fn scan(s: Seq<u8>) -> Scan
    decreases s.len(),
{
    match boundary(s) {
        Boundary::Whole { header, total } => if 0 < total <= s.len() {
            let behind = scan(s.skip(total as int));
            Scan {
                found: seq![classify(s[0], s.subrange(header as int, total as int))]
                    + behind.found,
                rest: behind.rest,
                lost: behind.lost,
            }
        } else {
            Scan { found: Seq::empty(), rest: s, lost: false }
        },
        Boundary::Incomplete => Scan { found: Seq::empty(), rest: s, lost: false },
        Boundary::Lost => Scan { found: Seq::empty(), rest: s, lost: true },
    }
}

/// Whether a PINGRESP is among the items.
pub open spec fn saw_broker_alive(found: Seq<InboundView>) -> bool {
    exists|i: int| 0 <= i < found.len() && found[i] == InboundView::BrokerAlive
}

/// The read side of a ready session.
#[derive(Clone, Debug, PartialEq, Eq)]
pub struct InboundDispatcher {
    /// Bytes of a frame that has not arrived whole yet.
    pending: Vec<u8>,
    failed: bool,
    broker_alive: bool,
}

/// Mathematical value of an [`InboundDispatcher`].
pub ghost struct DispatcherView {
    pub pending: Seq<u8>,
    /// The stream was lost or has ended: the session has failed and nothing
    /// is read any more.
    pub failed: bool,
    /// A PINGRESP has been seen.
    pub broker_alive: bool,
}

impl DispatcherView {
    /// The dispatcher after its stream has ended: failed, with whatever it
    /// held back left where it is.
    pub open spec fn ended(self) -> DispatcherView {
        DispatcherView { failed: true, ..self }
    }

    /// The dispatcher after `bytes` have arrived, and what it found in
    /// them. A dispatcher that has failed reads nothing; any other reads
    /// what it held back together with `bytes`, frame by frame.
    pub open spec fn fed(self, bytes: Seq<u8>) -> (DispatcherView, Seq<InboundView>) {
        if self.failed {
            (self, Seq::empty())
        } else {
            let outcome = scan(self.pending + bytes);
            (
                DispatcherView {
                    pending: outcome.rest,
                    failed: outcome.lost,
                    broker_alive: self.broker_alive || saw_broker_alive(outcome.found),
                },
                outcome.found,
            )
        }
    }
}

impl View for InboundDispatcher {
    type V = DispatcherView;

    closed spec fn view(&self) -> DispatcherView {
        DispatcherView {
            pending: self.pending@,
            failed: self.failed,
            broker_alive: self.broker_alive,
        }
    }
}

/// What one whole frame means.
fn classify_frame(frame: &[u8], header: usize) -> (r: Inbound)
    requires
        boundary(frame@) == (Boundary::Whole { header: header as nat, total: frame@.len() }),
    ensures
        r@ == classify(frame@[0], frame_body(frame@)),
{
    match decode_frame(frame, header) {
        Ok(Packet::Publish(message)) => Inbound::Message(message),
        Ok(Packet::Pingresp) => Inbound::BrokerAlive,
        Ok(_) => Inbound::Ignored,
        Err(ProtocolError::Unsupported) => Inbound::Ignored,
        Err(ProtocolError::Malformed) => Inbound::Malformed,
    }
}

/// The payload as text, where it is valid UTF-8; a payload that is not
/// stays what it is, bytes.
pub fn payload_text(payload: &[u8]) -> (r: Option<String>)
    ensures
        valid_utf8(payload@) ==> r is Some && r->0@ == decode_utf8(payload@),
        !valid_utf8(payload@) ==> r is None,
{
    match utf8_text(payload) {
        Some(text) => {
            proof {
                encode_utf8_decode_utf8(text@);
            }
            Some(text.to_owned())
        },
        None => None,
    }
}

/// The sixteen hexadecimal digits, in order.
pub open spec fn hex_digits() -> Seq<char> {
    "0123456789abcdef"@
}

/// Two hexadecimal digits for every byte, high nibble first.
pub open spec fn hex_of(bytes: Seq<u8>) -> Seq<char>
    decreases bytes.len(),
{
    if bytes.len() == 0 {
        Seq::empty()
    } else {
        hex_of(bytes.drop_last()) + seq![
            hex_digits()[bytes.last() as int / 16],
            hex_digits()[bytes.last() as int % 16],
        ]
    }
}

/// How a payload is shown: as its text where it is valid UTF-8, in
/// hexadecimal digits where it is not.
pub open spec fn rendering(payload: Seq<u8>) -> Seq<char> {
    if valid_utf8(payload) {
        decode_utf8(payload)
    } else {
        hex_of(payload)
    }
}

/// The hexadecimal digit for `nibble`.
fn hex_digit(nibble: u8) -> (r: &'static str)
    requires
        nibble < 16,
    ensures
        r@ == seq![hex_digits()[nibble as int]],
{
    proof {
        reveal_strlit("0123456789abcdef");
    }
    let digits = "0123456789abcdef";
    assert(digits.is_ascii());
    let r = digits.substring_ascii(nibble as usize, nibble as usize + 1);
    assert(r@ =~= seq![hex_digits()[nibble as int]]);
    r
}

/// The payload in hexadecimal digits.
pub fn payload_hex(payload: &[u8]) -> (r: String)
    ensures
        r@ == hex_of(payload@),
{
    let mut out = String::new();
    let mut i: usize = 0;
    while i < payload.len()
        invariant
            i <= payload@.len(),
            out@ == hex_of(payload@.take(i as int)),
        decreases payload@.len() - i,
    {
        let byte: u8 = payload[i];
        out.append(hex_digit(byte / 16));
        out.append(hex_digit(byte % 16));
        proof {
            let next = payload@.take(i + 1);
            assert(next.drop_last() =~= payload@.take(i as int));
            assert(next.last() == byte);
            assert(out@ =~= hex_of(next));
        }
        i = i + 1;
    }
    assert(payload@.take(i as int) =~= payload@);
    out
}

/// The payload as it is shown: its text where it is valid UTF-8, a
/// binary-safe rendering in hexadecimal digits where it is not.
pub fn render_payload(payload: &[u8]) -> (r: String)
    ensures
        r@ == rendering(payload@),
{
    match payload_text(payload) {
        Some(text) => text,
        None => payload_hex(payload),
    }
}

impl InboundDispatcher {
    /// A dispatcher that has read nothing yet.
    pub fn new() -> (r: InboundDispatcher)
        ensures
            r@ == (DispatcherView { pending: Seq::empty(), failed: false, broker_alive: false }),
    {
        InboundDispatcher { pending: Vec::new(), failed: false, broker_alive: false }
    }

    /// The stream ended or failed: nothing will complete what is held back,
    /// and no later frame will come. The dispatcher fails and reads nothing
    /// any more; the bytes of an unfinished frame are never delivered.
    pub fn stream_ended(&mut self)
        ensures
            final(self)@ == old(self)@.ended(),
    {
        self.failed = true;
    }

    /// Whether the stream was lost or has ended; the session is then to be
    /// closed.
    pub fn has_failed(&self) -> (r: bool)
        ensures
            r == self@.failed,
    {
        self.failed
    }

    /// Whether a PINGRESP has been seen.
    pub fn broker_alive(&self) -> (r: bool)
        ensures
            r == self@.broker_alive,
    {
        self.broker_alive
    }

    /// Number of bytes held back for a frame that is not whole yet.
    pub fn pending_len(&self) -> (r: usize)
        ensures
            r == self@.pending.len(),
    {
        self.pending.len()
    }

    /// Takes the bytes that just arrived, behind those held back, and gives
    /// what each whole frame among them means, in order. The bytes of an
    /// unfinished frame are held back for the next call.
    ///
    /// A malformed frame is reported in its place and passed over. Where no
    /// frame boundary can be found any more the dispatcher fails; from then
    /// on it reads nothing.
    pub fn feed(&mut self, bytes: &[u8]) -> (r: Vec<Inbound>)
        ensures
            (final(self)@, views(r@)) == old(self)@.fed(bytes@),
    {
        let mut found: Vec<Inbound> = Vec::new();
        if self.failed {
            assert(views(found@) =~= Seq::<InboundView>::empty());
            return found;
        }
        let mut buffer: Vec<u8> = slice_to_vec(self.pending.as_slice());
        let mut arrived: Vec<u8> = slice_to_vec(bytes);
        buffer.append(&mut arrived);
        let ghost all = buffer@;
        let len: usize = buffer.len();
        let mut at: usize = 0;
        let mut lost = false;
        let mut alive = self.broker_alive;
        assert(views(found@) =~= Seq::<InboundView>::empty());
        assert(all.skip(0) =~= all);
        loop
            invariant_except_break
                !lost,
                scan(all) == (Scan {
                    found: views(found@) + scan(all.skip(at as int)).found,
                    rest: scan(all.skip(at as int)).rest,
                    lost: scan(all.skip(at as int)).lost,
                }),
            invariant
                at <= len,
                len == all.len(),
                buffer@ == all,
                alive == (old(self)@.broker_alive || saw_broker_alive(views(found@))),
            ensures
                scan(all) == (Scan {
                    found: views(found@),
                    rest: all.skip(at as int),
                    lost,
                }),
            decreases len - at,
        {
            let window = slice_subrange(buffer.as_slice(), at, len);
            assert(window@ == all.skip(at as int));
            match probe(window) {
                FrameProbe::Whole { header, total } => {
                    proof {
                        lemma_first_frame_is_frame(window@);
                    }
                    let item = classify_frame(slice_subrange(window, 0, total), header);
                    let ghost before = views(found@);
                    if let Inbound::BrokerAlive = item {
                        alive = true;
                    }
                    found.push(item);
                    proof {
                        assert(views(found@) =~= before.push(item@));
                        assert(all.skip(at as int).skip(total as int) =~= all.skip(at + total));
                        assert(before + (seq![item@] + scan(all.skip(at + total)).found)
                            =~= before.push(item@) + scan(all.skip(at + total)).found);
                        if item@ == InboundView::BrokerAlive {
                            assert(views(found@)[before.len() as int] == InboundView::BrokerAlive);
                        } else {
                            assert forall|i: int|
                                0 <= i < views(found@).len() && views(found@)[i]
                                    == InboundView::BrokerAlive implies 0 <= i < before.len()
                                && before[i] == InboundView::BrokerAlive by {}
                        }
                        if saw_broker_alive(before) {
                            let i = choose|i: int|
                                0 <= i < before.len() && before[i] == InboundView::BrokerAlive;
                            assert(views(found@)[i] == InboundView::BrokerAlive);
                        }
                    }
                    at = at + total;
                },
                FrameProbe::NeedMore => {
                    assert(views(found@) + Seq::<InboundView>::empty() =~= views(found@));
                    break ;
                },
                FrameProbe::Lost => {
                    assert(views(found@) + Seq::<InboundView>::empty() =~= views(found@));
                    lost = true;
                    break ;
                },
            }
        }
        self.pending = slice_to_vec(slice_subrange(buffer.as_slice(), at, len));
        self.failed = lost;
        self.broker_alive = alive;
        found
    }
}

} // verus!
