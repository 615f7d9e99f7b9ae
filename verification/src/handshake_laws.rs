//! Laws of the handshake, stated over `connect_step`.

use vstd::prelude::*;
use crate::mqtt_lib::{connect_step, handshake_subscription, received};
use crate::mqtt_lib::{ConnectEventView, ConnectStepView, PACKET_IDENTIFIER};
use crate::packet::{PacketView, ProtocolError};
use crate::roundtrip::lemma_roundtrip;
use crate::session::{is_connected, SessionError, SessionState, SessionView};
use crate::wire::{encoding, well_formed};

verus! {

/// A well-formed packet that the broker sends arrives as itself.
pub proof fn lemma_received_of_encoding(p: PacketView)
    requires
        well_formed(p),
    ensures
        received(encoding(p)) == Ok::<PacketView, ProtocolError>(p),
{
    lemma_roundtrip(p);
}

/// Handshake with a broker that accepts: the open socket sends CONNECT, the
/// CONNACK with return code 0 sends the SUBSCRIBE, and the SUBACK for it
/// makes the session ready, for the endpoint it was made for. Nothing but
/// CONNECT and SUBSCRIBE is written.
pub proof fn lemma_accepting_broker_makes_ready(
    session: SessionView,
    session_present: bool,
    return_codes: Seq<u8>,
)
    requires
        session.state == SessionState::Disconnected,
        well_formed(session.connect_packet()),
        well_formed(
            PacketView::Suback { packet_identifier: PACKET_IDENTIFIER, return_codes },
        ),
    ensures
        ({
            let connack = encoding(PacketView::Connack { session_present, return_code: 0 });
            let suback = encoding(
                PacketView::Suback { packet_identifier: PACKET_IDENTIFIER, return_codes },
            );
            let (opened, first) = connect_step(session, ConnectEventView::SocketOpened);
            let (accepted, second) = connect_step(opened, ConnectEventView::Received(connack));
            let (ready, third) = connect_step(accepted, ConnectEventView::Received(suback));
            &&& first == Ok::<ConnectStepView, SessionError>(
                ConnectStepView::Send(encoding(session.connect_packet())),
            )
            &&& second == Ok::<ConnectStepView, SessionError>(
                ConnectStepView::Send(encoding(PacketView::Subscribe(handshake_subscription()))),
            )
            &&& third == Ok::<ConnectStepView, SessionError>(ConnectStepView::Ready)
            &&& ready == session.moved_to(SessionState::Ready, None)
            &&& ready.endpoint == session.endpoint
            &&& is_connected(ready.state)
        }),
{
    lemma_received_of_encoding(PacketView::Connack { session_present, return_code: 0 });
    lemma_received_of_encoding(
        PacketView::Suback { packet_identifier: PACKET_IDENTIFIER, return_codes },
    );
}

/// Handshake with a broker that refuses: a CONNACK with any return code but
/// 0 fails the session with an `AuthenticationError` that carries the code.
pub proof fn lemma_refusing_broker_fails(
    session: SessionView,
    session_present: bool,
    return_code: u8,
)
    requires
        session.state == SessionState::Connecting,
        return_code != 0,
    ensures
        connect_step(
            session,
            ConnectEventView::Received(
                encoding(PacketView::Connack { session_present, return_code }),
            ),
        ) == (
            session.moved_to(SessionState::Failed, None),
            Err::<ConnectStepView, SessionError>(SessionError::AuthenticationError(return_code)),
        ),
{
    lemma_received_of_encoding(PacketView::Connack { session_present, return_code });
}

/// Subscription acknowledgement mismatch: a SUBACK for another packet
/// identifier than the one awaited fails the session with a
/// `ProtocolViolation`.
pub proof fn lemma_suback_for_other_identifier_is_violation(
    session: SessionView,
    packet_identifier: u16,
    return_codes: Seq<u8>,
)
    requires
        session.state == SessionState::Subscribing,
        session.awaited is Some,
        session.awaited != Some(packet_identifier),
        well_formed(PacketView::Suback { packet_identifier, return_codes }),
    ensures
        connect_step(
            session,
            ConnectEventView::Received(
                encoding(PacketView::Suback { packet_identifier, return_codes }),
            ),
        ) == (
            session.moved_to(SessionState::Failed, None),
            Err::<ConnectStepView, SessionError>(SessionError::ProtocolViolation),
        ),
{
    lemma_received_of_encoding(PacketView::Suback { packet_identifier, return_codes });
}

/// While the SUBACK is awaited, a well-formed packet of any other type is
/// passed over: the session stays as it is and goes on waiting.
pub proof fn lemma_other_packets_are_passed_over(session: SessionView, p: PacketView)
    requires
        session.state == SessionState::Subscribing,
        well_formed(p),
        !(p is Suback),
    ensures
        connect_step(session, ConnectEventView::Received(encoding(p))) == (
            session,
            Ok::<ConnectStepView, SessionError>(ConnectStepView::Wait),
        ),
{
    lemma_received_of_encoding(p);
}

} // verus!
