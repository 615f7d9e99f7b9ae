//! What the HTTP surface answers, apart from how it is served.

use vstd::prelude::*;
use crate::mqtt_lib::{outgoing, publish_answer};
use crate::registry::ConnectionRegistry;
use crate::session::{is_connected, SessionError};

verus! {

/// Index, in the registry, of the session that broadcasts go out on.
pub const BROADCAST_SESSION: usize = 1;

/// The greeting of the `hello` route.
pub fn hello() -> (r: &'static str)
    ensures
        r@ == "Hello, world!"@,
{
    "Hello, world!"
}

/// The answer of the status route.
pub fn am_i_up() -> (r: &'static str)
    ensures
        r@ == "OK"@,
{
    "OK"
}

/// The broadcast route: gives the PUBLISH frame that carries `msg` to
/// `topic` on the broadcast session, for the caller to write to that
/// session's socket.
///
/// A registry without that session is a `ConnectionError`; otherwise the
/// answer is that of `mqtt_lib::publish` on that session.
pub fn publish(registry: &ConnectionRegistry, msg: String, topic: String) -> (r: Result<
    Vec<u8>,
    SessionError,
>)
    ensures
        registry@.len() <= BROADCAST_SESSION ==> r == Err::<Vec<u8>, SessionError>(
            SessionError::ConnectionError,
        ),
        registry@.len() > BROADCAST_SESSION && !is_connected(
            registry@[BROADCAST_SESSION as int].state,
        ) ==> r == Err::<Vec<u8>, SessionError>(SessionError::ProtocolViolation),
        registry@.len() > BROADCAST_SESSION && is_connected(
            registry@[BROADCAST_SESSION as int].state,
        ) ==> match publish_answer(outgoing(msg@, topic@)) {
            Ok(bytes) => r is Ok && r->Ok_0@ == bytes,
            Err(e) => r is Err && r->Err_0 == e,
        },
{
    match registry.get(BROADCAST_SESSION) {
        Some(session) => crate::mqtt_lib::publish(session, msg, topic),
        None => Err(SessionError::ConnectionError),
    }
}

} // verus!
