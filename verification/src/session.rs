//! The session's handshake state machine. It owns no socket: each step
//! takes what the connection delivered and answers with the bytes to send
//! and the state that follows.

use vstd::prelude::*;
use crate::codec::{encode, encode_publish, encode_subscribe};
use crate::dispatcher::{DispatcherView, InboundDispatcher};
use crate::packet::{Packet, PacketView, ProtocolError, PublishMessage, TopicSubscription};
use crate::wire::{encoding, well_formed};

verus! {

/// Where to reach a broker and under which identity. Fixed once a session
/// starts.
#[derive(Clone, Debug, PartialEq, Eq)]
pub struct BrokerEndpoint {
    /// `host:port`.
    pub address: String,
    pub client_id: String,
    /// Kept with the endpoint; the handshake does not send it.
    pub username: String,
    /// Kept with the endpoint; the handshake does not send it.
    pub password: String,
    /// The longest silence the broker is told to tolerate.
    pub keep_alive_seconds: u16,
}

/// Mathematical value of a [`BrokerEndpoint`].
pub ghost struct BrokerEndpointView {
    pub address: Seq<char>,
    pub client_id: Seq<char>,
    pub username: Seq<char>,
    pub password: Seq<char>,
    pub keep_alive_seconds: u16,
}

impl View for BrokerEndpoint {
    type V = BrokerEndpointView;

    open spec fn view(&self) -> BrokerEndpointView {
        BrokerEndpointView {
            address: self.address@,
            client_id: self.client_id@,
            username: self.username@,
            password: self.password@,
            keep_alive_seconds: self.keep_alive_seconds,
        }
    }
}

/// The states of a session.
#[derive(Clone, Copy, Debug, PartialEq, Eq, Structural)]
pub enum SessionState {
    Disconnected,
    Connecting,
    Connected,
    Subscribing,
    Ready,
    /// Terminal: a fatal connection, authentication or protocol error.
    Failed,
}

/// Why a session step did not go through.
#[derive(Clone, Copy, Debug, PartialEq, Eq, Structural)]
pub enum SessionError {
    /// The socket could not be opened, or closed unexpectedly.
    ConnectionError,
    /// The broker refused the connection, with its return code.
    AuthenticationError(u8),
    /// A packet could not be decoded or encoded.
    Protocol(ProtocolError),
    /// A SUBACK for another packet identifier, or a step or packet out of
    /// sequence.
    ProtocolViolation,
}

/// One connection to a broker, from the first step of the handshake on.
#[derive(Clone, Debug, PartialEq, Eq)]
pub struct Session {
    endpoint: BrokerEndpoint,
    state: SessionState,
    /// Packet identifier of the SUBSCRIBE in flight; counts in `Subscribing`.
    awaited: u16,
}

/// Mathematical value of a [`Session`].
pub ghost struct SessionView {
    /// The endpoint the session was made for; no step changes it.
    pub endpoint: BrokerEndpointView,
    pub state: SessionState,
    /// Packet identifier that the awaited SUBACK has to carry.
    pub awaited: Option<u16>,
}

impl SessionView {
    /// The same session in another state.
    pub open spec fn moved_to(self, state: SessionState, awaited: Option<u16>) -> SessionView {
        SessionView { state, awaited, ..self }
    }

    /// The session once its inbound dispatcher is as given: failed with a
    /// dispatcher that has failed, unchanged with any other.
    pub open spec fn after_listening(self, dispatcher: DispatcherView) -> SessionView {
        if dispatcher.failed {
            self.moved_to(SessionState::Failed, None)
        } else {
            self
        }
    }

    /// The CONNECT packet of this session.
    pub open spec fn connect_packet(self) -> PacketView {
        PacketView::Connect {
            client_id: self.endpoint.client_id,
            keep_alive: self.endpoint.keep_alive_seconds,
        }
    }
}

/// The states in which the connection carries packets.
pub open spec fn is_connected(state: SessionState) -> bool {
    state == SessionState::Connected || state == SessionState::Subscribing || state
        == SessionState::Ready
}

/// A received packet or the reason why none could be decoded, as values.
pub open spec fn reply_view(reply: Result<Packet, ProtocolError>) -> Result<
    PacketView,
    ProtocolError,
> {
    match reply {
        Ok(packet) => Ok(packet@),
        Err(e) => Err(e),
    }
}

/// What the first reply to CONNECT means: accepted on a CONNACK with return
/// code 0, refused with the broker's code on any other CONNACK; any other
/// packet is out of sequence.
pub open spec fn connack_outcome(reply: Result<PacketView, ProtocolError>) -> Result<
    (),
    SessionError,
> {
    match reply {
        Ok(PacketView::Connack { session_present, return_code }) => if return_code == 0 {
            Ok(())
        } else {
            Err(SessionError::AuthenticationError(return_code))
        },
        Ok(_) => Err(SessionError::ProtocolViolation),
        Err(e) => Err(SessionError::Protocol(e)),
    }
}

/// What a packet received while a SUBSCRIBE with identifier `awaited` is in
/// flight means: `Ok(true)` on the matching SUBACK, a violation on a SUBACK
/// for another identifier, and `Ok(false)`, keep waiting, on anything else.
pub open spec fn suback_outcome(awaited: u16, reply: Result<PacketView, ProtocolError>) -> Result<
    bool,
    SessionError,
> {
    match reply {
        Ok(PacketView::Suback { packet_identifier, return_codes }) => if packet_identifier
            == awaited {
            Ok(true)
        } else {
            Err(SessionError::ProtocolViolation)
        },
        _ => Ok(false),
    }
}

impl View for Session {
    type V = SessionView;

    closed spec fn view(&self) -> SessionView {
        SessionView {
            endpoint: self.endpoint@,
            state: self.state,
            awaited: if self.state == SessionState::Subscribing {
                Some(self.awaited)
            } else {
                None
            },
        }
    }
}

impl Session {
    /// A session for `endpoint`, not yet connected.
    pub fn new(endpoint: BrokerEndpoint) -> (r: Session)
        ensures
            r@ == (SessionView {
                endpoint: endpoint@,
                state: SessionState::Disconnected,
                awaited: None,
            }),
    {
        Session { endpoint, state: SessionState::Disconnected, awaited: 0 }
    }

    /// The state the session is in.
    pub fn state(&self) -> (r: SessionState)
        ensures
            r == self@.state,
    {
        self.state
    }

    /// Whether the connection carries packets.
    pub fn connected(&self) -> (r: bool)
        ensures
            r == is_connected(self@.state),
    {
        match self.state {
            SessionState::Connected => true,
            SessionState::Subscribing => true,
            SessionState::Ready => true,
            _ => false,
        }
    }

    /// The endpoint the session was made for.
    pub fn endpoint(&self) -> (r: &BrokerEndpoint)
        ensures
            r@ == self@.endpoint,
    {
        &self.endpoint
    }

    /// First step of the handshake, once the caller has tried to open the
    /// socket: gives the CONNECT frame to send.
    ///
    /// A socket that did not open is a `ConnectionError`, a client
    /// identifier that the wire format cannot carry a protocol error; both
    /// are fatal. Out of `Disconnected` the step is a violation and changes
    /// nothing.
    pub fn connect(&mut self, socket_opened: bool) -> (r: Result<Vec<u8>, SessionError>)
        ensures
            old(self)@.state != SessionState::Disconnected ==> r == Err::<Vec<u8>, SessionError>(
                SessionError::ProtocolViolation,
            ) && final(self)@ == old(self)@,
            old(self)@.state == SessionState::Disconnected && !socket_opened ==> r == Err::<
                Vec<u8>,
                SessionError,
            >(SessionError::ConnectionError) && final(self)@ == old(self)@.moved_to(
                SessionState::Failed,
                None,
            ),
            old(self)@.state == SessionState::Disconnected && socket_opened && !well_formed(
                old(self)@.connect_packet(),
            ) ==> r == Err::<Vec<u8>, SessionError>(
                SessionError::Protocol(ProtocolError::Malformed),
            ) && final(self)@ == old(self)@.moved_to(SessionState::Failed, None),
            old(self)@.state == SessionState::Disconnected && socket_opened && well_formed(
                old(self)@.connect_packet(),
            ) ==> r is Ok && r->Ok_0@ == encoding(old(self)@.connect_packet()) && final(self)@
                == old(self)@.moved_to(SessionState::Connecting, None),
    {
        if self.state != SessionState::Disconnected {
            return Err(SessionError::ProtocolViolation);
        }
        if !socket_opened {
            self.state = SessionState::Failed;
            return Err(SessionError::ConnectionError);
        }
        let packet = Packet::Connect {
            client_id: self.endpoint.client_id.clone(),
            keep_alive: self.endpoint.keep_alive_seconds,
        };
        match encode(&packet) {
            Ok(bytes) => {
                self.state = SessionState::Connecting;
                Ok(bytes)
            },
            Err(e) => {
                self.state = SessionState::Failed;
                Err(SessionError::Protocol(e))
            },
        }
    }

    /// Second step of the handshake: the first packet that arrived after
    /// CONNECT, or the reason why it could not be decoded.
    ///
    /// Only a CONNACK with return code 0 connects the session. Any other
    /// reply is fatal: another return code is an `AuthenticationError` with
    /// that code.
    pub fn on_connack(&mut self, reply: Result<Packet, ProtocolError>) -> (r: Result<
        (),
        SessionError,
    >)
        ensures
            old(self)@.state != SessionState::Connecting ==> r == Err::<(), SessionError>(
                SessionError::ProtocolViolation,
            ) && final(self)@ == old(self)@,
            old(self)@.state == SessionState::Connecting ==> r == connack_outcome(
                reply_view(reply),
            ) && final(self)@ == old(self)@.moved_to(
                if r is Ok {
                    SessionState::Connected
                } else {
                    SessionState::Failed
                },
                None,
            ),
    {
        if self.state != SessionState::Connecting {
            return Err(SessionError::ProtocolViolation);
        }
        let outcome = match reply {
            Ok(Packet::Connack { session_present, return_code }) => {
                if return_code == 0 {
                    Ok(())
                } else {
                    Err(SessionError::AuthenticationError(return_code))
                }
            },
            Ok(_) => Err(SessionError::ProtocolViolation),
            Err(e) => Err(SessionError::Protocol(e)),
        };
        self.state = if outcome.is_ok() {
            SessionState::Connected
        } else {
            SessionState::Failed
        };
        outcome
    }

    /// Asks for a subscription: gives the SUBSCRIBE frame to send and waits
    /// for the SUBACK with the subscription's packet identifier.
    ///
    /// A filter that is no topic filter is a protocol error and changes
    /// nothing; so does, as a violation, the step out of `Connected`.
    pub fn subscribe(&mut self, subscription: &TopicSubscription) -> (r: Result<
        Vec<u8>,
        SessionError,
    >)
        ensures
            old(self)@.state != SessionState::Connected ==> r == Err::<Vec<u8>, SessionError>(
                SessionError::ProtocolViolation,
            ) && final(self)@ == old(self)@,
            old(self)@.state == SessionState::Connected && !well_formed(
                PacketView::Subscribe(subscription@),
            ) ==> r == Err::<Vec<u8>, SessionError>(
                SessionError::Protocol(ProtocolError::Malformed),
            ) && final(self)@ == old(self)@,
            old(self)@.state == SessionState::Connected && well_formed(
                PacketView::Subscribe(subscription@),
            ) ==> r is Ok && r->Ok_0@ == encoding(PacketView::Subscribe(subscription@))
                && final(self)@ == old(self)@.moved_to(
                SessionState::Subscribing,
                Some(subscription.packet_identifier),
            ),
    {
        if self.state != SessionState::Connected {
            return Err(SessionError::ProtocolViolation);
        }
        match encode_subscribe(subscription) {
            Ok(bytes) => {
                self.state = SessionState::Subscribing;
                self.awaited = subscription.packet_identifier;
                Ok(bytes)
            },
            Err(e) => Err(SessionError::Protocol(e)),
        }
    }

    /// A packet that arrived while the SUBSCRIBE is in flight, or the reason
    /// why it could not be decoded.
    ///
    /// `Ok(true)`: the SUBACK with the awaited identifier, the session is
    /// ready. `Ok(false)`: anything but a SUBACK, passed over; keep reading.
    /// A SUBACK with another identifier is a fatal violation.
    pub fn on_suback(&mut self, reply: Result<Packet, ProtocolError>) -> (r: Result<
        bool,
        SessionError,
    >)
        ensures
            old(self)@.state != SessionState::Subscribing ==> r == Err::<bool, SessionError>(
                SessionError::ProtocolViolation,
            ) && final(self)@ == old(self)@,
            old(self)@.state == SessionState::Subscribing ==> r == suback_outcome(
                old(self)@.awaited->0,
                reply_view(reply),
            ) && final(self)@ == (match r {
                Ok(true) => old(self)@.moved_to(SessionState::Ready, None),
                Ok(false) => old(self)@,
                Err(_) => old(self)@.moved_to(SessionState::Failed, None),
            }),
    {
        if self.state != SessionState::Subscribing {
            return Err(SessionError::ProtocolViolation);
        }
        match reply {
            Ok(Packet::Suback { packet_identifier, return_codes }) => {
                if packet_identifier == self.awaited {
                    self.state = SessionState::Ready;
                    Ok(true)
                } else {
                    self.state = SessionState::Failed;
                    Err(SessionError::ProtocolViolation)
                }
            },
            _ => Ok(false),
        }
    }

    /// Gives the PUBLISH frame for `message`. Nothing is awaited in return,
    /// whatever the quality of service: the message is sent and forgotten.
    ///
    /// A message that the wire format cannot carry is a protocol error; a
    /// session that is not connected makes the step a violation.
    pub fn publish(&self, message: &PublishMessage) -> (r: Result<Vec<u8>, SessionError>)
        ensures
            !is_connected(self@.state) ==> r == Err::<Vec<u8>, SessionError>(
                SessionError::ProtocolViolation,
            ),
            is_connected(self@.state) && !well_formed(PacketView::Publish(message@)) ==> r == Err::<
                Vec<u8>,
                SessionError,
            >(SessionError::Protocol(ProtocolError::Malformed)),
            is_connected(self@.state) && well_formed(PacketView::Publish(message@)) ==> r is Ok
                && r->Ok_0@ == encoding(PacketView::Publish(message@)),
    {
        if !self.connected() {
            return Err(SessionError::ProtocolViolation);
        }
        match encode_publish(message) {
            Ok(bytes) => Ok(bytes),
            Err(e) => Err(SessionError::Protocol(e)),
        }
    }

    /// Follows the inbound dispatcher of this session: a dispatcher that
    /// has failed, because its stream was lost or has ended, closes the
    /// session, which is then `Failed`; any other leaves it as it is. Says
    /// whether the session was closed.
    pub fn close_if_lost(&mut self, dispatcher: &InboundDispatcher) -> (r: bool)
        ensures
            r == dispatcher@.failed,
            final(self)@ == old(self)@.after_listening(dispatcher@),
    {
        if dispatcher.has_failed() {
            self.state = SessionState::Failed;
            true
        } else {
            false
        }
    }

    /// The socket closed or failed: the session is over.
    pub fn connection_lost(&mut self) -> (r: SessionError)
        ensures
            r == SessionError::ConnectionError,
            final(self)@ == old(self)@.moved_to(SessionState::Failed, None),
    {
        self.state = SessionState::Failed;
        SessionError::ConnectionError
    }
}

} // verus!
