//! The sessions of a process, in the order in which they were registered.

use vstd::prelude::*;
use crate::dispatcher::InboundDispatcher;
use crate::packet::{PacketView, ProtocolError, PublishMessage};
use crate::session::{is_connected, Session, SessionError, SessionState, SessionView};
use crate::wire::{encoding, well_formed};

verus! {

/// An ordered collection of sessions, to be handed to whoever triggers a
/// publish. It is plain data: a caller that shares it between threads puts
/// it behind a lock of its own.
#[derive(Clone, Debug, PartialEq, Eq)]
pub struct ConnectionRegistry {
    sessions: Vec<Session>,
}

impl View for ConnectionRegistry {
    type V = Seq<SessionView>;

    closed spec fn view(&self) -> Seq<SessionView> {
        self.sessions@.map_values(|s: Session| s@)
    }
}

impl ConnectionRegistry {
    pub fn new() -> (r: ConnectionRegistry)
        ensures
            r@ == Seq::<SessionView>::empty(),
    {
        let r = ConnectionRegistry { sessions: Vec::new() };
        assert(r@ =~= Seq::<SessionView>::empty());
        r
    }

    pub fn len(&self) -> (r: usize)
        ensures
            r == self@.len(),
    {
        self.sessions.len()
    }

    /// Adds a session behind those already there and gives its index.
    pub fn register(&mut self, session: Session) -> (r: usize)
        ensures
            final(self)@ == old(self)@.push(session@),
            r == old(self)@.len(),
    {
        let index = self.sessions.len();
        self.sessions.push(session);
        assert(self@ =~= old(self)@.push(session@));
        index
    }

    /// The session at `index`, if there is one.
    pub fn get(&self, index: usize) -> (r: Option<&Session>)
        ensures
            index < self@.len() ==> r is Some && r->0@ == self@[index as int],
            index >= self@.len() ==> r is None,
    {
        if index < self.sessions.len() {
            Some(&self.sessions[index])
        } else {
            None
        }
    }

    /// Gives the PUBLISH frame for `message` on the session at `index`. No
    /// session at that index is a `ConnectionError`; otherwise the answer is
    /// that session's.
    pub fn publish(&self, index: usize, message: &PublishMessage) -> (r: Result<
        Vec<u8>,
        SessionError,
    >)
        ensures
            index >= self@.len() ==> r == Err::<Vec<u8>, SessionError>(
                SessionError::ConnectionError,
            ),
            index < self@.len() && !is_connected(self@[index as int].state) ==> r == Err::<
                Vec<u8>,
                SessionError,
            >(SessionError::ProtocolViolation),
            index < self@.len() && is_connected(self@[index as int].state) && !well_formed(
                PacketView::Publish(message@),
            ) ==> r == Err::<Vec<u8>, SessionError>(
                SessionError::Protocol(ProtocolError::Malformed),
            ),
            index < self@.len() && is_connected(self@[index as int].state) && well_formed(
                PacketView::Publish(message@),
            ) ==> r is Ok && r->Ok_0@ == encoding(PacketView::Publish(message@)),
    {
        match self.get(index) {
            Some(session) => session.publish(message),
            None => Err(SessionError::ConnectionError),
        }
    }

    /// The socket of the session at `index` closed or failed: that session
    /// is over. Says whether there is a session at that index.
    pub fn connection_lost(&mut self, index: usize) -> (r: bool)
        ensures
            r == (index < old(self)@.len()),
            r ==> final(self)@ == old(self)@.update(
                index as int,
                old(self)@[index as int].moved_to(SessionState::Failed, None),
            ),
            !r ==> final(self)@ == old(self)@,
    {
        if index >= self.sessions.len() {
            return false;
        }
        let mut session = self.sessions.remove(index);
        session.connection_lost();
        self.sessions.insert(index, session);
        assert(self@ =~= old(self)@.update(
            index as int,
            old(self)@[index as int].moved_to(SessionState::Failed, None),
        ));
        true
    }

    /// Follows the inbound dispatcher of the session at `index`: a
    /// dispatcher that has failed, because its stream was lost or has ended,
    /// closes that session, which is then `Failed`; any other changes
    /// nothing. Says whether a session was closed.
    pub fn close_if_lost(&mut self, index: usize, dispatcher: &InboundDispatcher) -> (r: bool)
        ensures
            r == (index < old(self)@.len() && dispatcher@.failed),
            index < old(self)@.len() ==> final(self)@ == old(self)@.update(
                index as int,
                old(self)@[index as int].after_listening(dispatcher@),
            ),
            index >= old(self)@.len() ==> final(self)@ == old(self)@,
    {
        if index >= self.sessions.len() {
            return false;
        }
        let mut session = self.sessions.remove(index);
        let closed = session.close_if_lost(dispatcher);
        self.sessions.insert(index, session);
        assert(self@ =~= old(self)@.update(
            index as int,
            old(self)@[index as int].after_listening(dispatcher@),
        ));
        closed
    }
}

} // verus!
