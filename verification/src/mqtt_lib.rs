//! The session as its callers drive it: the handshake step by step, a
//! publish, and the start of the listener. The caller owns the socket and
//! the timer, performs what each step answers and hands back what happened.

use vstd::prelude::*;
use vstd::slice::slice_to_vec;
use vstd::utf8::{encode_utf8, is_ascii_chars, is_ascii_chars_encode_utf8};
use crate::codec::decode;
use crate::dispatcher::{DispatcherView, InboundDispatcher};
use crate::keep_alive::{KeepAliveScheduler, KeepAliveView};
use crate::packet::{Packet, PacketView, ProtocolError, PublishMessage, PublishMessageView};
use crate::packet::{QualityOfService, TopicSubscription, TopicSubscriptionView};
use crate::session::{connack_outcome, is_connected, suback_outcome, Session, SessionError};
use crate::session::{reply_view, SessionState, SessionView};
use crate::wire::{encoding, parse, well_formed};

verus! {

/// Packet identifier of the handshake's SUBSCRIBE and of every PUBLISH.
pub const PACKET_IDENTIFIER: u16 = 10;

/// The subscription every session asks for once connected.
pub open spec fn handshake_subscription() -> TopicSubscriptionView {
    TopicSubscriptionView {
        filter: "hello/me"@,
        quality_of_service: QualityOfService::AtMostOnce,
        packet_identifier: PACKET_IDENTIFIER,
    }
}

/// The message `text` for `topic` as `publish` sends it: at least once,
/// under the fixed packet identifier.
pub open spec fn outgoing(text: Seq<char>, topic: Seq<char>) -> PublishMessageView {
    PublishMessageView {
        topic,
        payload: encode_utf8(text),
        quality_of_service: QualityOfService::AtLeastOnce,
        packet_identifier: Some(PACKET_IDENTIFIER),
    }
}

/// What happened on the connection since the last step.
#[derive(Clone, Debug, PartialEq, Eq)]
pub enum ConnectEvent {
    /// The socket is open.
    SocketOpened,
    /// The socket could not be opened, or closed or failed since.
    SocketFailed,
    /// The bytes of a frame have arrived.
    Received(Vec<u8>),
}

/// Mathematical value of a [`ConnectEvent`].
pub ghost enum ConnectEventView {
    SocketOpened,
    SocketFailed,
    Received(Seq<u8>),
}

impl View for ConnectEvent {
    type V = ConnectEventView;

    open spec fn view(&self) -> ConnectEventView {
        match self {
            ConnectEvent::SocketOpened => ConnectEventView::SocketOpened,
            ConnectEvent::SocketFailed => ConnectEventView::SocketFailed,
            ConnectEvent::Received(bytes) => ConnectEventView::Received(bytes@),
        }
    }
}

/// What the caller does next for the handshake to go on.
#[derive(Clone, Debug, PartialEq, Eq)]
pub enum ConnectStep {
    /// Write these bytes, then read a frame and hand it back.
    Send(Vec<u8>),
    /// Read another frame and hand it back.
    Wait,
    /// The session is ready: the handshake is over and nothing is left to
    /// write for it.
    Ready,
}

/// Mathematical value of a [`ConnectStep`].
pub ghost enum ConnectStepView {
    Send(Seq<u8>),
    Wait,
    Ready,
}

impl View for ConnectStep {
    type V = ConnectStepView;

    open spec fn view(&self) -> ConnectStepView {
        match self {
            ConnectStep::Send(bytes) => ConnectStepView::Send(bytes@),
            ConnectStep::Wait => ConnectStepView::Wait,
            ConnectStep::Ready => ConnectStepView::Ready,
        }
    }
}

/// The value of a step's answer.
pub open spec fn answer_view(r: Result<ConnectStep, SessionError>) -> Result<
    ConnectStepView,
    SessionError,
> {
    match r {
        Ok(step) => Ok(step@),
        Err(e) => Err(e),
    }
}

/// The packet that the bytes of a received frame hold.
pub open spec fn received(frame: Seq<u8>) -> Result<PacketView, ProtocolError> {
    match parse(frame) {
        Ok((packet, total)) => Ok(packet),
        Err(e) => Err(e),
    }
}

/// The frame of a message, or the error that stands for a message that the
/// wire format cannot carry.
pub open spec fn publish_answer(m: PublishMessageView) -> Result<Seq<u8>, SessionError> {
    if well_formed(PacketView::Publish(m)) {
        Ok(encoding(PacketView::Publish(m)))
    } else {
        Err(SessionError::Protocol(ProtocolError::Malformed))
    }
}

/// The handshake as a function from the session and an event to the
/// session that follows and the answer:
///
/// - `Disconnected`: an open socket sends CONNECT, a failed one is a
///   `ConnectionError`.
/// - `Connecting`: the first frame decides. A CONNACK that accepts sends
///   the SUBSCRIBE for `hello/me`; anything else fails the session.
/// - `Subscribing`: the matching SUBACK makes the session ready, and the
///   handshake is over; a SUBACK for another identifier fails the session;
///   any other frame is passed over.
/// - A failed socket fails the session in every state. Every other event is
///   out of sequence and changes nothing.
///
/// The handshake writes CONNECT and SUBSCRIBE and nothing else.
pub open spec fn connect_step(session: SessionView, event: ConnectEventView) -> (
    SessionView,
    Result<ConnectStepView, SessionError>,
) {
    match event {
        ConnectEventView::SocketFailed => (
            session.moved_to(SessionState::Failed, None),
            Err(SessionError::ConnectionError),
        ),
        ConnectEventView::SocketOpened => if session.state != SessionState::Disconnected {
            (session, Err(SessionError::ProtocolViolation))
        } else if well_formed(session.connect_packet()) {
            (
                session.moved_to(SessionState::Connecting, None),
                Ok(ConnectStepView::Send(encoding(session.connect_packet()))),
            )
        } else {
            (
                session.moved_to(SessionState::Failed, None),
                Err(SessionError::Protocol(ProtocolError::Malformed)),
            )
        },
        ConnectEventView::Received(frame) => if session.state == SessionState::Connecting {
            match connack_outcome(received(frame)) {
                Ok(_) => (
                    session.moved_to(SessionState::Subscribing, Some(PACKET_IDENTIFIER)),
                    Ok(
                        ConnectStepView::Send(
                            encoding(PacketView::Subscribe(handshake_subscription())),
                        ),
                    ),
                ),
                Err(e) => (session.moved_to(SessionState::Failed, None), Err(e)),
            }
        } else if session.state == SessionState::Subscribing {
            match suback_outcome(session.awaited->0, received(frame)) {
                Ok(true) => (
                    session.moved_to(SessionState::Ready, None),
                    Ok(ConnectStepView::Ready),
                ),
                Ok(false) => (session, Ok(ConnectStepView::Wait)),
                Err(e) => (session.moved_to(SessionState::Failed, None), Err(e)),
            }
        } else {
            (session, Err(SessionError::ProtocolViolation))
        },
    }
}

/// The subscription every session asks for once connected.
fn subscription() -> (r: TopicSubscription)
    ensures
        r@ == handshake_subscription(),
        well_formed(PacketView::Subscribe(r@)),
{
    let r = TopicSubscription {
        filter: "hello/me".to_owned(),
        quality_of_service: QualityOfService::AtMostOnce,
        packet_identifier: PACKET_IDENTIFIER,
    };
    proof {
        reveal_strlit("hello/me");
        assert(is_ascii_chars("hello/me"@));
        is_ascii_chars_encode_utf8("hello/me"@);
    }
    r
}

/// What `decode` found, without the length.
fn packet_of(frame: &Vec<u8>) -> (r: Result<Packet, ProtocolError>)
    ensures
        reply_view(r) == received(frame@),
{
    match decode(frame.as_slice()) {
        Ok((packet, _)) => Ok(packet),
        Err(e) => Err(e),
    }
}

/// One step of the handshake: takes what happened on the connection and
/// answers with what to do next. The caller performs it and comes back with
/// the next event, until the answer is `Ready` or an error.
///
/// What each event leads to in each state is `connect_step`.
pub fn connect(session: &mut Session, event: ConnectEvent) -> (r: Result<
    ConnectStep,
    SessionError,
>)
    ensures
        (final(session)@, answer_view(r)) == connect_step(old(session)@, event@),
{
    match event {
        ConnectEvent::SocketFailed => Err(session.connection_lost()),
        ConnectEvent::SocketOpened => {
            match session.connect(true) {
                Ok(bytes) => Ok(ConnectStep::Send(bytes)),
                Err(e) => Err(e),
            }
        },
        ConnectEvent::Received(frame) => {
            match session.state() {
                SessionState::Connecting => {
                    match session.on_connack(packet_of(&frame)) {
                        Ok(_) => {
                            match session.subscribe(&subscription()) {
                                Ok(bytes) => Ok(ConnectStep::Send(bytes)),
                                Err(e) => Err(e),
                            }
                        },
                        Err(e) => Err(e),
                    }
                },
                SessionState::Subscribing => {
                    match session.on_suback(packet_of(&frame)) {
                        Ok(true) => Ok(ConnectStep::Ready),
                        Ok(false) => Ok(ConnectStep::Wait),
                        Err(e) => Err(e),
                    }
                },
                _ => Err(SessionError::ProtocolViolation),
            }
        },
    }
}

/// Gives the PUBLISH frame that carries `msg` to `topic_name` on `session`:
/// at least once and under the fixed packet identifier; no acknowledgement
/// is awaited.
///
/// A session that is not connected makes this a violation; a topic that is
/// no topic name, or a message too long for one frame, a protocol error.
pub fn publish(session: &Session, msg: String, topic_name: String) -> (r: Result<
    Vec<u8>,
    SessionError,
>)
    ensures
        !is_connected(session@.state) ==> r == Err::<Vec<u8>, SessionError>(
            SessionError::ProtocolViolation,
        ),
        is_connected(session@.state) ==> match publish_answer(outgoing(msg@, topic_name@)) {
            Ok(bytes) => r is Ok && r->Ok_0@ == bytes,
            Err(e) => r is Err && r->Err_0 == e,
        },
{
    let message = PublishMessage {
        topic: topic_name,
        payload: slice_to_vec(msg.as_str().as_bytes()),
        quality_of_service: QualityOfService::AtLeastOnce,
        packet_identifier: Some(PACKET_IDENTIFIER),
    };
    session.publish(&message)
}

/// A scheduler that has not fired yet.
pub open spec fn started_scheduler(keep_alive_seconds: u16) -> KeepAliveView {
    KeepAliveView {
        period_seconds: keep_alive_seconds / 2,
        running: keep_alive_seconds >= 2,
        pings_sent: 0,
        last_ping_sent_at: None,
    }
}

/// A dispatcher that has read nothing yet.
pub open spec fn started_dispatcher() -> DispatcherView {
    DispatcherView { pending: Seq::empty(), failed: false, broker_alive: false }
}

/// Starts the listener of a ready session: the keep-alive scheduler, firing
/// at half the session's keep-alive interval, and the inbound dispatcher.
/// The caller runs each on its own thread or task: one writes the frame of
/// every tick, the other feeds what it reads.
///
/// Before the session is ready this is a violation.
pub fn mqtt_subscribe_listener(session: &Session) -> (r: Result<
    (KeepAliveScheduler, InboundDispatcher),
    SessionError,
>)
    ensures
        session@.state != SessionState::Ready ==> r is Err && r->Err_0
            == SessionError::ProtocolViolation,
        session@.state == SessionState::Ready ==> (r matches Ok((scheduler, dispatcher))
            && scheduler@ == started_scheduler(session@.endpoint.keep_alive_seconds) && dispatcher@
            == started_dispatcher()),
{
    match session.state() {
        SessionState::Ready => Ok(
            (
                KeepAliveScheduler::new(session.endpoint().keep_alive_seconds),
                InboundDispatcher::new(),
            ),
        ),
        _ => Err(SessionError::ProtocolViolation),
    }
}

} // verus!
