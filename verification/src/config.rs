//! The configuration values a session is made from.

use vstd::prelude::*;
use crate::session::{BrokerEndpoint, BrokerEndpointView};

verus! {

/// Keep-alive interval, in seconds, that every session announces.
pub const KEEP_ALIVE: u16 = 10;

/// The whole configuration.
#[derive(Clone, Debug, PartialEq, Eq)]
pub struct Config {
    pub mqtt: MQTT,
}

/// The broker section of the configuration.
#[derive(Clone, Debug, PartialEq, Eq)]
pub struct MQTT {
    pub client_id: String,
    pub broker_address: String,
    pub username: String,
    pub password: String,
    pub topic: String,
}

impl MQTT {
    /// The endpoint these values describe, with the fixed keep-alive.
    pub fn endpoint(&self) -> (r: BrokerEndpoint)
        ensures
            r@ == (BrokerEndpointView {
                address: self.broker_address@,
                client_id: self.client_id@,
                username: self.username@,
                password: self.password@,
                keep_alive_seconds: KEEP_ALIVE,
            }),
    {
        BrokerEndpoint {
            address: self.broker_address.clone(),
            client_id: self.client_id.clone(),
            username: self.username.clone(),
            password: self.password.clone(),
            keep_alive_seconds: KEEP_ALIVE,
        }
    }
}

} // verus!
