//! Laws of the inbound stream: frames are found where they are, a damaged
//! frame costs only itself, and it does not matter in what pieces the bytes
//! arrive.

use vstd::prelude::*;
use crate::dispatcher::{classify, saw_broker_alive, scan, DispatcherView, InboundView, Scan};
use crate::packet::{PacketView, ProtocolError, PublishMessageView};
use crate::roundtrip::{lemma_boundary_of_frame, lemma_parse_body_of_packet};
use crate::session::{SessionState, SessionView};
use crate::wire::{body, boundary, encoding, first_byte, frame_body, is_frame, parse_body};
use crate::wire::{well_formed, Boundary};

verus! {

/// What a well-formed packet means to the session when it arrives.
pub open spec fn meaning(p: PacketView) -> InboundView {
    match p {
        PacketView::Publish(m) => InboundView::Message(m),
        PacketView::Pingresp => InboundView::BrokerAlive,
        _ => InboundView::Ignored,
    }
}

/// Where a frame ends is decided by the bytes up to its end: bytes that
/// follow change nothing. Nor do they bring back a lost stream.
pub proof fn lemma_boundary_ignores_what_follows(a: Seq<u8>, b: Seq<u8>)
    ensures
        boundary(a) is Whole ==> boundary(a + b) == boundary(a) && (a + b)[0] == a[0] && (a
            + b).subrange(boundary(a)->header as int, boundary(a)->total as int) == a.subrange(
            boundary(a)->header as int,
            boundary(a)->total as int,
        ) && (a + b).skip(boundary(a)->total as int) == a.skip(boundary(a)->total as int) + b,
        boundary(a) is Lost ==> boundary(a + b) is Lost,
{
    if a.len() > 0 {
        let s = a.skip(1);
        let t = (a + b).skip(1);
        assert(forall|i: int| 0 <= i < s.len() ==> s[i] == t[i]);
        if boundary(a) is Whole {
            let header = boundary(a)->header as int;
            let total = boundary(a)->total as int;
            assert((a + b).subrange(header, total) =~= a.subrange(header, total));
            assert((a + b).skip(total) =~= a.skip(total) + b);
        }
    }
}

/// A whole frame at the front of the stream is read as what it means, and
/// reading goes on right behind it.
pub proof fn lemma_scan_steps_over_frame(a: Seq<u8>, rest: Seq<u8>)
    requires
        is_frame(a),
    ensures
        scan(a + rest) == (Scan {
            found: seq![classify(a[0], frame_body(a))] + scan(rest).found,
            rest: scan(rest).rest,
            lost: scan(rest).lost,
        }),
{
    lemma_boundary_ignores_what_follows(a, rest);
    assert(a.skip(a.len() as int) + rest =~= rest);
}

/// The encoding of a well-formed packet is one whole frame, with the
/// packet's first byte and body.
pub proof fn lemma_encoding_is_frame(p: PacketView)
    requires
        well_formed(p),
    ensures
        is_frame(encoding(p)),
        encoding(p)[0] == first_byte(p),
        frame_body(encoding(p)) == body(p),
        classify(first_byte(p), body(p)) == meaning(p),
{
    lemma_parse_body_of_packet(p);
    lemma_boundary_of_frame(first_byte(p), body(p), Seq::<u8>::empty());
    assert(encoding(p) + Seq::<u8>::empty() =~= encoding(p));
}

/// A well-formed packet at the front of the stream is read as what it
/// means, whatever follows it.
pub proof fn lemma_scan_reads_packet(p: PacketView, rest: Seq<u8>)
    requires
        well_formed(p),
    ensures
        scan(encoding(p) + rest) == (Scan {
            found: seq![meaning(p)] + scan(rest).found,
            rest: scan(rest).rest,
            lost: scan(rest).lost,
        }),
{
    lemma_encoding_is_frame(p);
    lemma_scan_steps_over_frame(encoding(p), rest);
}

/// Malformed-frame resilience: a damaged frame between two messages is
/// reported in its place, both messages are delivered, nothing is held back
/// and the stream is not lost.
pub proof fn lemma_damaged_frame_costs_only_itself(
    first: PublishMessageView,
    damaged: Seq<u8>,
    second: PublishMessageView,
)
    requires
        well_formed(PacketView::Publish(first)),
        well_formed(PacketView::Publish(second)),
        is_frame(damaged),
        parse_body(damaged[0], frame_body(damaged)) == Err::<PacketView, ProtocolError>(
            ProtocolError::Malformed,
        ),
    ensures
        scan(
            encoding(PacketView::Publish(first)) + damaged + encoding(PacketView::Publish(second)),
        ) == (Scan {
            found: seq![
                InboundView::Message(first),
                InboundView::Malformed,
                InboundView::Message(second),
            ],
            rest: Seq::empty(),
            lost: false,
        }),
{
    let one = encoding(PacketView::Publish(first));
    let three = encoding(PacketView::Publish(second));
    let nothing = Seq::<u8>::empty();
    lemma_scan_reads_packet(PacketView::Publish(second), nothing);
    lemma_scan_steps_over_frame(damaged, three + nothing);
    lemma_scan_reads_packet(PacketView::Publish(first), damaged + (three + nothing));
    assert(one + damaged + three =~= one + (damaged + (three + nothing)));
    assert(scan(nothing).found =~= Seq::<InboundView>::empty());
    assert(scan(one + damaged + three).found =~= seq![
        InboundView::Message(first),
        InboundView::Malformed,
        InboundView::Message(second),
    ]);
}

/// What is held back is never a whole frame: reading it again finds
/// nothing and holds back the same.
pub proof fn lemma_rest_holds_no_frame(s: Seq<u8>)
    ensures
        scan(scan(s).rest) == (Scan {
            found: Seq::empty(),
            rest: scan(s).rest,
            lost: scan(s).lost,
        }),
    decreases s.len(),
{
    match boundary(s) {
        Boundary::Whole { header, total } => {
            if 0 < total <= s.len() {
                lemma_rest_holds_no_frame(s.skip(total as int));
            }
        },
        _ => {},
    }
}

/// The pieces in which the bytes arrive do not matter: reading `a`, then
/// what was held back together with `b`, finds what reading `a + b` at once
/// finds, as long as `a` does not lose the stream.
pub proof fn lemma_scan_in_pieces(a: Seq<u8>, b: Seq<u8>)
    requires
        !scan(a).lost,
    ensures
        scan(a + b) == (Scan {
            found: scan(a).found + scan(scan(a).rest + b).found,
            rest: scan(scan(a).rest + b).rest,
            lost: scan(scan(a).rest + b).lost,
        }),
    decreases a.len(),
{
    match boundary(a) {
        Boundary::Whole { header, total } => {
            lemma_boundary_ignores_what_follows(a, b);
            let behind = a.skip(total as int);
            lemma_scan_in_pieces(behind, b);
            let later = scan(scan(behind).rest + b);
            let item = classify(a[0], a.subrange(header as int, total as int));
            assert(seq![item] + (scan(behind).found + later.found) =~= (seq![item] + scan(
                behind,
            ).found) + later.found);
        },
        _ => {
            assert(scan(a).found + scan(a + b).found =~= scan(a + b).found);
        },
    }
}

/// Whether a PINGRESP is among the items of one sequence or another is
/// whether it is among the items of both together.
proof fn lemma_saw_broker_alive_in_both(a: Seq<InboundView>, b: Seq<InboundView>)
    ensures
        saw_broker_alive(a + b) == (saw_broker_alive(a) || saw_broker_alive(b)),
{
    if saw_broker_alive(a) {
        let i = choose|i: int| 0 <= i < a.len() && a[i] == InboundView::BrokerAlive;
        assert((a + b)[i] == InboundView::BrokerAlive);
    }
    if saw_broker_alive(b) {
        let i = choose|i: int| 0 <= i < b.len() && b[i] == InboundView::BrokerAlive;
        assert((a + b)[a.len() + i] == InboundView::BrokerAlive);
    }
    if saw_broker_alive(a + b) {
        let i = choose|i: int| 0 <= i < (a + b).len() && (a + b)[i] == InboundView::BrokerAlive;
        if i < a.len() {
            assert(a[i] == InboundView::BrokerAlive);
        } else {
            assert(b[i - a.len()] == InboundView::BrokerAlive);
        }
    }
}

/// Feeding a dispatcher `a` and then `b` leaves it as feeding `a + b` at
/// once does, and finds the same items in the same order, as long as the
/// stream is not lost within `a`.
pub proof fn lemma_feeding_in_pieces(dispatcher: DispatcherView, a: Seq<u8>, b: Seq<u8>)
    requires
        !dispatcher.fed(a).0.failed,
    ensures
        dispatcher.fed(a + b) == (
            dispatcher.fed(a).0.fed(b).0,
            dispatcher.fed(a).1 + dispatcher.fed(a).0.fed(b).1,
        ),
{
    let held = dispatcher.pending;
    lemma_scan_in_pieces(held + a, b);
    assert(held + (a + b) =~= (held + a) + b);
    lemma_saw_broker_alive_in_both(scan(held + a).found, scan(scan(held + a).rest + b).found);
}

/// Malformed-frame resilience of the dispatcher: fed a damaged frame
/// between two messages, a dispatcher that holds nothing back delivers both
/// messages, reports the damaged frame between them, and has not failed.
pub proof fn lemma_dispatcher_survives_damaged_frame(
    dispatcher: DispatcherView,
    first: PublishMessageView,
    damaged: Seq<u8>,
    second: PublishMessageView,
)
    requires
        !dispatcher.failed,
        dispatcher.pending.len() == 0,
        well_formed(PacketView::Publish(first)),
        well_formed(PacketView::Publish(second)),
        is_frame(damaged),
        parse_body(damaged[0], frame_body(damaged)) == Err::<PacketView, ProtocolError>(
            ProtocolError::Malformed,
        ),
    ensures
        dispatcher.fed(
            encoding(PacketView::Publish(first)) + damaged + encoding(PacketView::Publish(second)),
        ) == (
            DispatcherView { pending: Seq::empty(), failed: false, ..dispatcher },
            seq![
                InboundView::Message(first),
                InboundView::Malformed,
                InboundView::Message(second),
            ],
        ),
{
    let stream = encoding(PacketView::Publish(first)) + damaged + encoding(
        PacketView::Publish(second),
    );
    lemma_damaged_frame_costs_only_itself(first, damaged, second);
    assert(dispatcher.pending + stream =~= stream);
    let found = scan(stream).found;
    assert(found.len() == 3);
    assert(!saw_broker_alive(found));
}

/// The bytes on a wire to which the packets were written one whole frame
/// behind the other.
pub open spec fn wire_of(packets: Seq<PacketView>) -> Seq<u8>
    decreases packets.len(),
{
    if packets.len() == 0 {
        Seq::empty()
    } else {
        encoding(packets[0]) + wire_of(packets.drop_first())
    }
}

/// Frames that are written whole, one behind the other, are read back one
/// by one: every packet in its place, nothing left over, nothing lost. A
/// writer that holds the write gate for a whole frame therefore never
/// damages the frame of another.
pub proof fn lemma_whole_frames_read_back(packets: Seq<PacketView>)
    requires
        forall|i: int| 0 <= i < packets.len() ==> well_formed(#[trigger] packets[i]),
    ensures
        scan(wire_of(packets)) == (Scan {
            found: packets.map_values(|p: PacketView| meaning(p)),
            rest: Seq::empty(),
            lost: false,
        }),
    decreases packets.len(),
{
    let meanings = packets.map_values(|p: PacketView| meaning(p));
    if packets.len() == 0 {
        assert(scan(wire_of(packets)).found =~= meanings);
    } else {
        let later = packets.drop_first();
        assert forall|i: int| 0 <= i < later.len() implies well_formed(#[trigger] later[i]) by {
            assert(later[i] == packets[i + 1]);
        }
        lemma_whole_frames_read_back(later);
        lemma_scan_reads_packet(packets[0], wire_of(later));
        assert(seq![meaning(packets[0])] + later.map_values(|p: PacketView| meaning(p))
            =~= meanings);
    }
}

/// A stream that ends inside a frame: nothing is delivered for the part of
/// the frame that arrived, the dispatcher has failed once the end is known,
/// and the session that follows it is `Failed`.
pub proof fn lemma_stream_ending_inside_frame(
    dispatcher: DispatcherView,
    session: SessionView,
    part: Seq<u8>,
)
    requires
        !dispatcher.failed,
        dispatcher.pending.len() == 0,
        boundary(part) is Incomplete,
    ensures
        dispatcher.fed(part).1 == Seq::<InboundView>::empty(),
        dispatcher.fed(part).0.pending == part,
        !dispatcher.fed(part).0.failed,
        dispatcher.fed(part).0.ended().failed,
        dispatcher.fed(part).0.ended().fed(part) == (
            dispatcher.fed(part).0.ended(),
            Seq::<InboundView>::empty(),
        ),
        session.after_listening(dispatcher.fed(part).0.ended()) == session.moved_to(
            SessionState::Failed,
            None,
        ),
{
    assert(dispatcher.pending + part =~= part);
}

} // verus!
